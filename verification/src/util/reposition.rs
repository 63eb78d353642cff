//! Putting the mirrors of channels where they belong.
use crate::errors::MappingsError;
use crate::model::{Channel, ChannelType};
use crate::operation::{is_run, runs_end, Action, Progress, Reply, ReplyKind, Task};
use crate::util::create::ChannelMap;
use vstd::prelude::*;

verus! {

/// Whether a category mirrors a category.
pub open spec fn is_category_pair(pair: (Channel, Channel)) -> bool {
    pair.0.kind is GuildCategory && pair.1.kind is GuildCategory
}

/// Whether a channel that is no category mirrors another one.
pub open spec fn is_plain_pair(pair: (Channel, Channel)) -> bool {
    !(pair.0.kind is GuildCategory) && !(pair.1.kind is GuildCategory)
}

/// The category that mirrors the one with the given identifier: the last, where more than
/// one does.
pub open spec fn category_for(map: Seq<(Channel, Channel)>, id: u64) -> Option<u64>
    decreases map.len(),
{
    if map.len() == 0 {
        None
    } else if is_category_pair(map.last()) && map.last().0.id == id {
        Some(map.last().1.id)
    } else {
        category_for(map.drop_last(), id)
    }
}

/// The category into which the mirror of a channel is moved.
pub open spec fn new_parent(map: Seq<(Channel, Channel)>, pair: (Channel, Channel)) -> Option<
    u64,
> {
    match pair.0.parent_id {
        Some(parent_id) if is_plain_pair(pair) => category_for(map, parent_id),
        _ => None,
    }
}

/// The moves into categories that the first pairs call for: of each mirror whose channel is
/// in a category, into the mirror of that category.
pub open spec fn moves(map: Seq<(Channel, Channel)>, pairs: Seq<(Channel, Channel)>) -> Seq<
    (u64, u64),
>
    decreases pairs.len(),
{
    if pairs.len() == 0 {
        Seq::empty()
    } else {
        let before = moves(map, pairs.drop_last());
        match new_parent(map, pairs.last()) {
            Some(parent_id) => before.push((pairs.last().1.id, parent_id)),
            None => before,
        }
    }
}

/// Where the mirrors of channels go: each to the position of what it mirrors, where that
/// has one.
pub open spec fn positions(map: Seq<(Channel, Channel)>) -> Seq<(u64, u64)>
    decreases map.len(),
{
    if map.len() == 0 {
        Seq::empty()
    } else {
        let before = positions(map.drop_last());
        match map.last().0.position {
            Some(position) => before.push((map.last().1.id, position as u64)),
            None => before,
        }
    }
}

/// A mirror is moved only into a category that mirrors the one its channel is in.
pub proof fn moves_follow_categories(
    map: Seq<(Channel, Channel)>,
    pairs: Seq<(Channel, Channel)>,
    k: int,
)
    requires
        0 <= k < moves(map, pairs).len(),
    ensures
        exists|i: int| #![trigger pairs[i]]
            0 <= i < pairs.len() && moves(map, pairs)[k].0 == pairs[i].1.id && new_parent(
                map,
                pairs[i],
            ) == Some(moves(map, pairs)[k].1),
    decreases pairs.len(),
{
    let before = moves(map, pairs.drop_last());
    if k < before.len() {
        moves_follow_categories(map, pairs.drop_last(), k);
        let i = choose|i: int| #![trigger pairs.drop_last()[i]]
            0 <= i < pairs.drop_last().len() && before[k].0 == pairs.drop_last()[i].1.id
                && new_parent(map, pairs.drop_last()[i]) == Some(before[k].1);
        assert(pairs[i] == pairs.drop_last()[i]);
    } else {
        assert(pairs[pairs.len() - 1] == pairs.last());
    }
}

/// The category for an identifier is one that mirrors it.
pub proof fn category_for_mirrors(map: Seq<(Channel, Channel)>, id: u64)
    requires
        category_for(map, id) is Some,
    ensures
        exists|i: int| #![trigger map[i]]
            0 <= i < map.len() && is_category_pair(map[i]) && map[i].0.id == id && category_for(
                map,
                id,
            ) == Some(map[i].1.id),
    decreases map.len(),
{
    if is_category_pair(map.last()) && map.last().0.id == id {
        assert(map[map.len() - 1] == map.last());
    } else {
        category_for_mirrors(map.drop_last(), id);
        let i = choose|i: int| #![trigger map.drop_last()[i]]
            0 <= i < map.drop_last().len() && is_category_pair(map.drop_last()[i])
                && map.drop_last()[i].0.id == id && category_for(map.drop_last(), id) == Some(
                map.drop_last()[i].1.id,
            );
        assert(map[i] == map.drop_last()[i]);
    }
}

/// Every mirror of a channel with a position gets that position.
pub proof fn positions_are_kept(map: Seq<(Channel, Channel)>, i: int)
    requires
        0 <= i < map.len(),
        map[i].0.position is Some,
    ensures
        positions(map).contains((map[i].1.id, map[i].0.position->0 as u64)),
    decreases map.len(),
{
    let before = positions(map.drop_last());
    if i == map.len() - 1 {
        let pair = (map[i].1.id, map[i].0.position->0 as u64);
        assert(positions(map)[before.len() as int] == pair);
    } else {
        positions_are_kept(map.drop_last(), i);
        assert(map.drop_last()[i] == map[i]);
        let pair = (map[i].1.id, map[i].0.position->0 as u64);
        let k = choose|k: int| 0 <= k < before.len() && before[k] == pair;
        assert(positions(map)[k] == pair);
    }
}

/// The category that mirrors the one with the given identifier.
fn find_category(map: &ChannelMap, id: u64) -> (found: Option<u64>)
    ensures
        found == category_for(map@, id),
{
    let mut i: usize = map.len();
    assert(map@.take(i as int) =~= map@);
    while i > 0
        invariant
            i <= map@.len(),
            category_for(map@.take(i as int), id) == category_for(map@, id),
        decreases i,
    {
        i -= 1;
        let ghost seen = map@.take(i + 1);
        assert(seen.last() == map@[i as int]);
        assert(seen.drop_last() =~= map@.take(i as int));
        if map[i].0.kind == ChannelType::GuildCategory && map[i].1.kind
            == ChannelType::GuildCategory && map[i].0.id == id {
            return Some(map[i].1.id);
        }
    }
    None
}

/// How far the putting in place has come.
#[derive(Clone, Copy, Debug, PartialEq, Eq, Structural)]
pub enum RepositionStage {
    Begin,
    Moving(usize),
    Waiting(usize),
    Positioning,
    Ended,
}

/// Moves the mirrors of channels into categories, one after the other, and then puts them
/// all in order.
pub struct RepositionChannels {
    pub dest_guild_id: u64,
    /// Whether there is nothing to put in place.
    pub is_empty: bool,
    pub moves: Vec<(u64, u64)>,
    pub positions: Vec<(u64, u64)>,
    pub stage: RepositionStage,
}

/// Begins to put the mirrors of channels where they belong.
pub fn reposition_channels(dest_guild_id: u64, channel_map: &ChannelMap) -> (task:
    RepositionChannels)
    ensures
        task.wf(),
        task.starts(dest_guild_id, channel_map@),
{
    let mut moves: Vec<(u64, u64)> = Vec::new();
    let mut positions: Vec<(u64, u64)> = Vec::new();
    let ghost map = channel_map@;
    for i in 0..channel_map.len()
        invariant
            map == channel_map@,
            moves@ == self::moves(map, map.take(i as int)),
            positions@ == self::positions(map.take(i as int)),
    {
        let src = &channel_map[i].0;
        let dest = &channel_map[i].1;
        assert(map.take(i + 1).last() == map[i as int]);
        assert(map.take(i + 1).drop_last() =~= map.take(i as int));
        if src.kind != ChannelType::GuildCategory && dest.kind != ChannelType::GuildCategory {
            if let Some(parent_id) = src.parent_id {
                if let Some(category_id) = find_category(channel_map, parent_id) {
                    moves.push((dest.id, category_id));
                }
            }
        }
        if let Some(position) = src.position {
            positions.push((dest.id, position as u64));
        }
    }
    assert(map.take(map.len() as int) =~= map);
    RepositionChannels {
        dest_guild_id,
        is_empty: channel_map.len() == 0,
        moves,
        positions,
        stage: RepositionStage::Begin,
    }
}

impl RepositionChannels {
    /// Whether this is the putting in place of the given channels at its beginning.
    pub open spec fn starts(self, dest_guild_id: u64, map: Seq<(Channel, Channel)>) -> bool {
        &&& self.dest_guild_id == dest_guild_id
        &&& self.is_empty == (map.len() == 0)
        &&& self.moves@ == moves(map, map)
        &&& self.positions@ == positions(map)
        &&& self.stage is Begin
    }

    /// The same putting in place, at another stage.
    pub open spec fn at(self, stage: RepositionStage) -> RepositionChannels {
        RepositionChannels { stage, ..self }
    }

    /// What follows once the first `done` channels were moved.
    pub open spec fn continues(
        self,
        done: int,
        next: Self,
        progress: Progress<(), MappingsError>,
    ) -> bool {
        if done < self.moves@.len() {
            &&& next == self.at(RepositionStage::Moving(done as usize))
            &&& progress.performs(
                Action::MoveChannel {
                    channel_id: self.moves@[done].0,
                    parent_id: self.moves@[done].1,
                },
            )
        } else {
            &&& next.stage is Positioning
            &&& progress.performs(
                Action::PositionChannels {
                    guild_id: self.dest_guild_id,
                    positions: self.positions,
                },
            )
        }
    }

    fn proceed(self, done: usize) -> (res: (Self, Progress<(), MappingsError>))
        ensures
            self.continues(done as int, res.0, res.1),
            res.0.wf(),
            res.1.leaves(res.0.awaits()),
    {
        if done < self.moves.len() {
            let (channel_id, parent_id) = self.moves[done];
            (
                RepositionChannels { stage: RepositionStage::Moving(done), ..self },
                Progress::Perform(Action::MoveChannel { channel_id, parent_id }),
            )
        } else {
            let RepositionChannels { dest_guild_id, is_empty, moves, positions, stage: _ } = self;
            let action = Action::PositionChannels { guild_id: dest_guild_id, positions };
            let next = RepositionChannels {
                dest_guild_id,
                is_empty,
                moves,
                positions: Vec::new(),
                stage: RepositionStage::Positioning,
            };
            (next, Progress::Perform(action))
        }
    }
}

impl Task for RepositionChannels {
    type Output = ();

    type Error = MappingsError;

    open spec fn wf(self) -> bool {
        match self.stage {
            RepositionStage::Moving(i) => i < self.moves@.len(),
            RepositionStage::Waiting(i) => i < self.moves@.len(),
            _ => true,
        }
    }

    open spec fn awaits(self) -> Option<ReplyKind> {
        match self.stage {
            RepositionStage::Begin => Some(ReplyKind::Begin),
            RepositionStage::Moving(_) => Some(ReplyKind::Done),
            RepositionStage::Waiting(_) => Some(ReplyKind::Done),
            RepositionStage::Positioning => Some(ReplyKind::Done),
            RepositionStage::Ended => None,
        }
    }

    open spec fn step(
        self,
        reply: Reply,
        next: Self,
        progress: Progress<(), MappingsError>,
    ) -> bool {
        match (self.stage, reply) {
            (_, Reply::Failed(failure)) => next == self.at(RepositionStage::Ended)
                && progress.fails(MappingsError::of(failure)),
            (RepositionStage::Begin, Reply::Begin) => if self.is_empty {
                next == self.at(RepositionStage::Ended) && progress.yields(())
            } else {
                self.continues(0, next, progress)
            },
            (RepositionStage::Moving(i), Reply::Done) => next == self.at(
                RepositionStage::Waiting(i),
            ) && progress.performs(Action::Sleep(1)),
            (RepositionStage::Waiting(i), Reply::Done) => self.continues(i + 1, next, progress),
            (RepositionStage::Positioning, Reply::Done) => next == self.at(RepositionStage::Ended)
                && progress.yields(()),
            _ => false,
        }
    }

    fn resume(self, reply: Reply) -> (res: (Self, Progress<(), MappingsError>)) {
        assert(self.wf());
        match (self.stage, reply) {
            (_, Reply::Failed(failure)) => (
                RepositionChannels { stage: RepositionStage::Ended, ..self },
                Progress::Failed(MappingsError::from_failure(failure)),
            ),
            (RepositionStage::Begin, Reply::Begin) => {
                if self.is_empty {
                    (
                        RepositionChannels { stage: RepositionStage::Ended, ..self },
                        Progress::Done(()),
                    )
                } else {
                    self.proceed(0)
                }
            },
            (RepositionStage::Moving(i), Reply::Done) => (
                RepositionChannels { stage: RepositionStage::Waiting(i), ..self },
                Progress::Perform(Action::Sleep(1)),
            ),
            (RepositionStage::Waiting(i), Reply::Done) => {
                assert(i < self.moves.len());
                self.proceed(i + 1)
            },
            (RepositionStage::Positioning, Reply::Done) => (
                RepositionChannels { stage: RepositionStage::Ended, ..self },
                Progress::Done(()),
            ),
            _ => vstd::pervasive::unreached(),
        }
    }
}

/// Where nothing fails, every move is made, each once, in order and with a pause after it, and
/// after all of them the positions are set, once.
pub proof fn everything_is_put_in_place(
    tasks: Seq<RepositionChannels>,
    replies: Seq<Reply>,
    progress: Seq<Progress<(), MappingsError>>,
    k: int,
)
    requires
        is_run(tasks, replies, progress),
        tasks[0].stage is Begin,
        !tasks[0].is_empty,
        replies.len() > 0,
        progress.last() is Done,
        0 <= k <= tasks[0].moves@.len(),
    ensures
        replies.len() == 2 * tasks[0].moves@.len() + 2,
        k < tasks[0].moves@.len() ==> {
            &&& progress[2 * k].performs(
                Action::MoveChannel {
                    channel_id: tasks[0].moves@[k].0,
                    parent_id: tasks[0].moves@[k].1,
                },
            )
            &&& progress[2 * k + 1].performs(Action::Sleep(1))
        },
        progress[2 * tasks[0].moves@.len() as int].performs(
            Action::PositionChannels {
                guild_id: tasks[0].dest_guild_id,
                positions: tasks[0].positions,
            },
        ),
{
    put_in_place_up_to(tasks, replies, progress, tasks[0].moves@.len() as int);
    if k < tasks[0].moves@.len() {
        put_in_place_up_to(tasks, replies, progress, k);
    }
}

/// After every pause the next move is made, or the positions are set.
proof fn put_in_place_up_to(
    tasks: Seq<RepositionChannels>,
    replies: Seq<Reply>,
    progress: Seq<Progress<(), MappingsError>>,
    k: int,
)
    requires
        is_run(tasks, replies, progress),
        tasks[0].stage is Begin,
        !tasks[0].is_empty,
        replies.len() > 0,
        progress.last() is Done,
        0 <= k <= tasks[0].moves@.len(),
    ensures
        k < tasks[0].moves@.len() ==> {
            &&& 2 * k + 2 < replies.len()
            &&& progress[2 * k].performs(
                Action::MoveChannel {
                    channel_id: tasks[0].moves@[k].0,
                    parent_id: tasks[0].moves@[k].1,
                },
            )
            &&& progress[2 * k + 1].performs(Action::Sleep(1))
            &&& tasks[2 * k + 2] == tasks[0].at(tasks[2 * k + 2].stage)
            &&& tasks[2 * k + 2].stage matches RepositionStage::Waiting(i)
            &&& i == k
        },
        k == tasks[0].moves@.len() ==> {
            &&& replies.len() == 2 * k + 2
            &&& progress[2 * k].performs(
                Action::PositionChannels {
                    guild_id: tasks[0].dest_guild_id,
                    positions: tasks[0].positions,
                },
            )
        },
    decreases k,
{
    assert(tasks[0].moves.len() == tasks[0].moves@.len());
    let first = replies[0];
    if k > 0 {
        put_in_place_up_to(tasks, replies, progress, k - 1);
        let waited = replies[2 * k];
    }
    assert(progress[2 * k] is Perform);
    assert(2 * k + 1 < replies.len());
    let moved = replies[2 * k + 1];
    if k < tasks[0].moves@.len() {
        if !(progress[2 * k + 1] is Perform) {
            runs_end(tasks, replies, progress, 2 * k + 1);
        }
    } else {
        runs_end(tasks, replies, progress, 2 * k + 1);
    }
}

} // verus!
