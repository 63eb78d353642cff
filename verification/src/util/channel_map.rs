//! Finding out which channels mirror which.
use crate::errors::{DatabaseError, Failure, MappingsError};
use crate::keys::{be_bytes_injective, be_bytes_round_trip};
use crate::model::{is_copy, Channel, MappingView};
use crate::operation::{
    destination, is_run, runs_end, Action, Progress, Reply, ReplyKind, Task,
};
use crate::table::{is_registered, is_served, leads_from, serves, Table};
use crate::util::create::{
    add_channel, channel_added, channel_index, channel_index_found, ChannelMap,
};
use crate::util::register::{
    are_mappings, filled, registered_mappings_are_added, RegisterMappings,
};
use vstd::prelude::*;

verus! {

/// Where the last channel with the given identifier stands.
pub open spec fn last_with_id(channels: Seq<Channel>, id: u64) -> Option<int>
    decreases channels.len(),
{
    if channels.len() == 0 {
        None
    } else if channels.last().id == id {
        Some(channels.len() - 1)
    } else {
        last_with_id(channels.drop_last(), id)
    }
}

/// The last channel with the given identifier has that identifier, and none has it where
/// there is no such channel.
pub proof fn last_with_id_found(channels: Seq<Channel>, id: u64)
    ensures
        match last_with_id(channels, id) {
            Some(i) => 0 <= i < channels.len() && channels[i].id == id,
            None => forall|i: int| 0 <= i < channels.len() ==> (#[trigger] channels[i]).id != id,
        },
    decreases channels.len(),
{
    if channels.len() > 0 && channels.last().id != id {
        last_with_id_found(channels.drop_last(), id);
        if last_with_id(channels, id) is None {
            assert forall|i: int| 0 <= i < channels.len() implies (#[trigger] channels[i]).id
                != id by {
                if i < channels.len() - 1 {
                    assert(channels.drop_last()[i] == channels[i]);
                }
            }
        }
    }
}

/// A copy of the last channel with the given identifier.
fn find_channel(channels: &Vec<Channel>, id: u64) -> (found: Option<Channel>)
    ensures
        match last_with_id(channels@, id) {
            Some(i) => found is Some && is_copy(found->0, channels@[i]),
            None => found is None,
        },
{
    let mut i: usize = channels.len();
    assert(channels@.take(i as int) =~= channels@);
    while i > 0
        invariant
            i <= channels@.len(),
            last_with_id(channels@.take(i as int), id) == last_with_id(channels@, id),
        decreases i,
    {
        i -= 1;
        let ghost seen = channels@.take(i + 1);
        assert(seen.last() == channels@[i as int]);
        assert(seen.drop_last() =~= channels@.take(i as int));
        if channels[i].id == id {
            return Some(channels[i].clone());
        }
    }
    None
}

/// How far the map has come.
pub enum MapStage {
    Begin { pending: Vec<Channel> },
    LookingUp {
        src: Channel,
        pending: Vec<Channel>,
        map: ChannelMap,
        /// What the first lookup that failed failed with.
        failed: Option<DatabaseError>,
    },
    Ended,
}

/// Looks up what mirrors each of some channels, and keeps the pairs whose mirror is among
/// the given ones. Where a lookup fails the others are still made.
pub struct BuildChannelMap {
    pub dest_channels: Vec<Channel>,
    pub stage: MapStage,
}

/// Begins to look up which channels mirror which.
pub fn build_channel_map(src_channels: Vec<Channel>, dest_channels: Vec<Channel>) -> (task:
    BuildChannelMap)
    ensures
        task.wf(),
        task == (BuildChannelMap {
            dest_channels,
            stage: MapStage::Begin { pending: src_channels },
        }),
{
    BuildChannelMap { dest_channels, stage: MapStage::Begin { pending: src_channels } }
}

impl BuildChannelMap {
    /// The same map, at another stage.
    pub open spec fn at(self, stage: MapStage) -> BuildChannelMap {
        BuildChannelMap { stage, ..self }
    }

    /// What follows once some channels were looked up.
    pub open spec fn continues(
        self,
        pending: Seq<Channel>,
        map: Seq<(Channel, Channel)>,
        failed: Option<DatabaseError>,
        next: Self,
        progress: Progress<ChannelMap, MappingsError>,
    ) -> bool {
        if pending.len() == 0 {
            &&& next == self.at(MapStage::Ended)
            &&& match failed {
                Some(error) => progress.fails(MappingsError::Database(error)),
                None => progress matches Progress::Done(done) && done@ == map,
            }
        } else {
            &&& next.dest_channels == self.dest_channels
            &&& next.stage matches MapStage::LookingUp {
                src,
                pending: next_pending,
                map: next_map,
                failed: next_failed,
            }
            &&& src == pending[0]
            &&& next_pending@ == pending.drop_first()
            &&& next_map@ == map
            &&& next_failed == failed
            &&& progress.performs(Action::GetMapping { orig_id: src.id })
        }
    }

    /// What follows once a channel has turned out to be mirrored by another one, or not.
    pub open spec fn looked_up(
        self,
        src: Channel,
        found: Option<u64>,
        pending: Seq<Channel>,
        map: Seq<(Channel, Channel)>,
        next: Self,
        progress: Progress<ChannelMap, MappingsError>,
    ) -> bool {
        match found {
            Some(id) => match last_with_id(self.dest_channels@, id) {
                Some(i) => exists|dest: Channel|
                    #![trigger is_copy(dest, self.dest_channels@[i])]
                    {
                        &&& is_copy(dest, self.dest_channels@[i])
                        &&& self.continues(
                            pending,
                            channel_added(map, src, dest),
                            None,
                            next,
                            progress,
                        )
                    },
                None => self.continues(pending, map, None, next, progress),
            },
            None => self.continues(pending, map, None, next, progress),
        }
    }

    fn proceed(self, pending: Vec<Channel>, map: ChannelMap, failed: Option<DatabaseError>) -> (res:
        (Self, Progress<ChannelMap, MappingsError>))
        ensures
            self.continues(pending@, map@, failed, res.0, res.1),
            res.0.wf(),
            res.1.leaves(res.0.awaits()),
    {
        let mut pending = pending;
        if pending.len() == 0 {
            let progress = match failed {
                Some(error) => Progress::Failed(MappingsError::Database(error)),
                None => Progress::Done(map),
            };
            (BuildChannelMap { stage: MapStage::Ended, ..self }, progress)
        } else {
            let ghost before = pending@;
            let src = pending.remove(0);
            assert(pending@ =~= before.drop_first());
            let action = Action::GetMapping { orig_id: src.id };
            let stage = MapStage::LookingUp { src, pending, map, failed };
            (BuildChannelMap { stage, ..self }, Progress::Perform(action))
        }
    }
}

impl Task for BuildChannelMap {
    type Output = ChannelMap;

    type Error = MappingsError;

    open spec fn wf(self) -> bool {
        true
    }

    open spec fn awaits(self) -> Option<ReplyKind> {
        match self.stage {
            MapStage::Begin { .. } => Some(ReplyKind::Begin),
            MapStage::LookingUp { .. } => Some(ReplyKind::Mapping),
            MapStage::Ended => None,
        }
    }

    open spec fn step(
        self,
        reply: Reply,
        next: Self,
        progress: Progress<ChannelMap, MappingsError>,
    ) -> bool {
        let ended = self.at(MapStage::Ended);
        match (self.stage, reply) {
            (MapStage::Begin { pending }, Reply::Begin) => ended.continues(
                pending@,
                Seq::empty(),
                None,
                next,
                progress,
            ),
            (
                MapStage::LookingUp { src, pending, map, failed: None },
                Reply::Mapping(found),
            ) => ended.looked_up(src, destination(found), pending@, map@, next, progress),
            (
                MapStage::LookingUp { src: _, pending, map, failed: Some(error) },
                Reply::Mapping(_),
            ) => ended.continues(pending@, map@, Some(error), next, progress),
            (
                MapStage::LookingUp { src: _, pending, map, failed },
                Reply::Failed(Failure::Database(error)),
            ) => {
                let first = match failed {
                    Some(first) => first,
                    None => error,
                };
                ended.continues(pending@, map@, Some(first), next, progress)
            },
            (_, Reply::Failed(failure)) => next == ended && progress.fails(
                MappingsError::of(failure),
            ),
            _ => false,
        }
    }

    fn resume(self, reply: Reply) -> (res: (Self, Progress<ChannelMap, MappingsError>)) {
        let BuildChannelMap { dest_channels, stage } = self;
        let ended = BuildChannelMap { dest_channels, stage: MapStage::Ended };
        match (stage, reply) {
            (MapStage::Begin { pending }, Reply::Begin) => ended.proceed(pending, Vec::new(), None),
            (MapStage::LookingUp { src, pending, map, failed }, Reply::Mapping(found)) => {
                let mut map = map;
                if failed.is_none() {
                    if let Some(mapping) = found {
                        if let Some(dest) = find_channel(&ended.dest_channels, mapping.ref_id()) {
                            add_channel(&mut map, src, dest);
                        }
                    }
                }
                ended.proceed(pending, map, failed)
            },
            (
                MapStage::LookingUp { src: _, pending, map, failed },
                Reply::Failed(Failure::Database(error)),
            ) => {
                let first = match failed {
                    Some(first) => first,
                    None => error,
                };
                ended.proceed(pending, map, Some(first))
            },
            (_, Reply::Failed(failure)) => (
                ended,
                Progress::Failed(MappingsError::from_failure(failure)),
            ),
            _ => vstd::pervasive::unreached(),
        }
    }
}

/// Whether every mirror in a map is a copy of one of the given channels.
pub open spec fn mirrors_are_among(
    map: Seq<(Channel, Channel)>,
    dest_channels: Seq<Channel>,
) -> bool {
    forall|i: int| 0 <= i < map.len() ==> is_copy_of_some((#[trigger] map[i]).1, dest_channels)
}

/// Whether a channel is a copy of one of the given channels.
pub open spec fn is_copy_of_some(channel: Channel, dest_channels: Seq<Channel>) -> bool {
    exists|j: int| 0 <= j < dest_channels.len() && is_copy(channel, #[trigger] dest_channels[j])
}

/// The pairs that were found so far.
pub open spec fn map_so_far(stage: MapStage) -> Seq<(Channel, Channel)> {
    match stage {
        MapStage::LookingUp { map, .. } => map@,
        _ => Seq::empty(),
    }
}

/// At no time does the map lead to a channel that is not among the given ones, and neither
/// does the result.
pub proof fn map_leads_to_given_channels(
    task: BuildChannelMap,
    reply: Reply,
    next: BuildChannelMap,
    progress: Progress<ChannelMap, MappingsError>,
)
    requires
        mirrors_are_among(map_so_far(task.stage), task.dest_channels@),
        task.step(reply, next, progress),
    ensures
        next.dest_channels == task.dest_channels,
        mirrors_are_among(map_so_far(next.stage), task.dest_channels@),
        progress matches Progress::Done(map) ==> mirrors_are_among(map@, task.dest_channels@),
{
    if let (MapStage::LookingUp { src, pending, map, failed: None }, Reply::Mapping(found)) = (
        task.stage,
        reply,
    ) {
        if let Some(id) = destination(found) {
            last_with_id_found(task.dest_channels@, id);
            if let Some(i) = last_with_id(task.dest_channels@, id) {
                assert forall|dest: Channel|
                    is_copy(dest, task.dest_channels@[i]) implies mirrors_are_among(
                    #[trigger] channel_added(map@, src, dest),
                    task.dest_channels@,
                ) by {
                    assert(is_copy_of_some(dest, task.dest_channels@));
                    channel_index_found(map@, src);
                    let added = channel_added(map@, src, dest);
                    assert forall|j: int| 0 <= j < added.len() implies is_copy_of_some(
                        (#[trigger] added[j]).1,
                        task.dest_channels@,
                    ) by {
                        if j < map@.len() && j != channel_index(map@, src) {
                            assert(added[j] == map@[j]);
                        }
                    }
                }
            }
        }
    }
}

// ---------------------------------------------------------------------------
// What was registered is found again
// ---------------------------------------------------------------------------

/// Whether no two channels that are mirrored, and no two that mirror them, have the same
/// identifier.
pub open spec fn has_distinct_ids(map: Seq<(Channel, Channel)>) -> bool {
    forall|i: int, j: int|
        0 <= i < j < map.len() ==> (#[trigger] map[i]).0.id != (#[trigger] map[j]).0.id
            && map[i].1.id != map[j].1.id
}

/// Whether no two channels have the same identifier.
pub open spec fn are_distinct(channels: Seq<Channel>) -> bool {
    forall|i: int, j: int|
        0 <= i < j < channels.len() ==> (#[trigger] channels[i]).id != (#[trigger] channels[j]).id
}

/// Whether a pair of channels is a copy of another.
pub open spec fn is_pair_copy(copy: (Channel, Channel), pair: (Channel, Channel)) -> bool {
    is_copy(copy.0, pair.0) && is_copy(copy.1, pair.1)
}

/// Whether a map leads from a channel of which this is a copy.
pub open spec fn is_key(channel: Channel, map: Seq<(Channel, Channel)>) -> bool {
    exists|j: int| 0 <= j < map.len() && is_copy(channel, (#[trigger] map[j]).0)
}

/// Whether a map leads to a channel of which this is a copy.
pub open spec fn is_value(channel: Channel, map: Seq<(Channel, Channel)>) -> bool {
    exists|j: int| 0 <= j < map.len() && is_copy(channel, (#[trigger] map[j]).1)
}

/// Whether a copy of a channel is among some channels.
pub open spec fn is_listed(channel: Channel, channels: Seq<Channel>) -> bool {
    exists|i: int| 0 <= i < channels.len() && is_copy(#[trigger] channels[i], channel)
}

/// Whether a pair of channels is a copy of one of some pairs.
pub open spec fn is_one_of(pair: (Channel, Channel), pairs: Seq<(Channel, Channel)>) -> bool {
    exists|j: int| 0 <= j < pairs.len() && is_pair_copy(pair, #[trigger] pairs[j])
}

/// Whether a copy of a pair is among some pairs.
pub open spec fn is_found(pair: (Channel, Channel), found: Seq<(Channel, Channel)>) -> bool {
    exists|i: int| 0 <= i < found.len() && is_pair_copy(#[trigger] found[i], pair)
}

/// Whether some channels are copies of those that a map leads from, in any order.
pub open spec fn are_keys(channels: Seq<Channel>, map: Seq<(Channel, Channel)>) -> bool {
    &&& forall|i: int| 0 <= i < channels.len() ==> #[trigger] is_key(channels[i], map)
    &&& forall|j: int| 0 <= j < map.len() ==> #[trigger] is_listed(map[j].0, channels)
}

/// Whether some channels are copies of those that a map leads to, in any order.
pub open spec fn are_values(channels: Seq<Channel>, map: Seq<(Channel, Channel)>) -> bool {
    &&& forall|i: int| 0 <= i < channels.len() ==> #[trigger] is_value(channels[i], map)
    &&& forall|j: int| 0 <= j < map.len() ==> #[trigger] is_listed(map[j].1, channels)
}

/// Whether a table leads from each channel of a map to what mirrors it, and nowhere else.
pub open spec fn leads_along(table: Table, map: Seq<(Channel, Channel)>) -> bool {
    &&& forall|j: int| 0 <= j < map.len() ==> is_registered(table, (#[trigger] map[j]).0.id)
    &&& forall|row: MappingView, j: int|
        #![trigger table.contains(row), map[j]]
        0 <= j < map.len() && table.contains(row) && leads_from(row, map[j].0.id)
            ==> row.reference() == map[j].1.id
}

/// Registering channels that were not registered makes the table lead along their map.
proof fn registering_leads_along(
    task: RegisterMappings,
    map: Seq<(Channel, Channel)>,
    guild_ids: (u64, u64),
    before: Table,
)
    requires
        task.registers_channels(map, guild_ids),
        has_distinct_ids(map),
        forall|j: int| 0 <= j < map.len() ==> !is_registered(before, (#[trigger] map[j]).0.id),
        are_mappings(task.records@, map.len() as int),
    ensures
        leads_along(filled(before, task.records@, map.len() as int), map),
{
    let records = task.records@;
    let table = filled(before, records, map.len() as int);
    assert forall|j: int| 0 <= j < map.len() implies {
        &&& leads_from(#[trigger] records[j]->Ok_0@, map[j].0.id)
        &&& records[j]->Ok_0@.reference() == map[j].1.id
    } by {
        be_bytes_round_trip(map[j].1.id);
    }
    assert forall|j: int| 0 <= j < map.len() implies is_registered(
        table,
        (#[trigger] map[j]).0.id,
    ) by {
        assert(records[j] is Ok);
        assert(table.contains(records[j]->Ok_0@));
    }
    assert forall|row: MappingView, j: int|
        #![trigger table.contains(row), map[j]]
        0 <= j < map.len() && table.contains(row) && leads_from(row, map[j].0.id) implies
        row.reference() == map[j].1.id by {
        if !before.contains(row) {
            let i = choose|i: int|
                0 <= i < map.len() && (#[trigger] records[i]) is Ok && records[i]->Ok_0@ == row;
            be_bytes_injective(map[i].0.id, map[j].0.id);
            if i < j {
                assert(map[i].0.id != map[j].0.id);
            } else if j < i {
                assert(map[j].0.id != map[i].0.id);
            }
        }
    }
}

impl BuildChannelMap {
    /// Whether this is a map of some channels that waits for the answer to a lookup: for all
    /// before, what mirrors them was found.
    pub open spec fn has_come_to(
        self,
        channels: Seq<Channel>,
        asked: Action,
        pairs: Seq<(Channel, Channel)>,
    ) -> bool {
        &&& self.stage matches MapStage::LookingUp { src, pending, map, failed }
        &&& failed is None
        &&& asked == (Action::GetMapping { orig_id: src.id })
        &&& pending@.len() < channels.len()
        &&& ({
            let done = channels.len() - pending@.len() - 1;
            &&& src == channels[done]
            &&& pending@ == channels.skip(done + 1)
            &&& finds_pairs(map@, channels.take(done), pairs)
        })
    }
}

/// Whether a map leads from some channels, in their order, each as one of the given pairs
/// does.
pub open spec fn finds_pairs(
    map: Seq<(Channel, Channel)>,
    channels: Seq<Channel>,
    pairs: Seq<(Channel, Channel)>,
) -> bool {
    &&& map.len() == channels.len()
    &&& forall|i: int|
        0 <= i < map.len() ==> (#[trigger] map[i]).0 == channels[i] && is_one_of(map[i], pairs)
}

/// What a map has come to once the first `done` channels were looked up.
proof fn mapping_continues(
    task: BuildChannelMap,
    channels: Seq<Channel>,
    done: int,
    map: Seq<(Channel, Channel)>,
    pairs: Seq<(Channel, Channel)>,
    next: BuildChannelMap,
    progress: Progress<ChannelMap, MappingsError>,
)
    requires
        0 <= done <= channels.len(),
        finds_pairs(map, channels.take(done), pairs),
        task.continues(channels.skip(done), map, None, next, progress),
    ensures
        next.dest_channels == task.dest_channels,
        match progress {
            Progress::Perform(action) => next.has_come_to(channels, action, pairs),
            Progress::Done(found) => finds_pairs(found@, channels, pairs),
            Progress::Failed(_) => false,
        },
{
    if done < channels.len() {
        assert(channels.skip(done).drop_first() =~= channels.skip(done + 1));
    } else {
        assert(channels.take(done) =~= channels);
    }
}

/// One step of a map, from what its last lookup found.
proof fn mapping_goes_on(
    task: BuildChannelMap,
    channels: Seq<Channel>,
    asked: Action,
    pairs: Seq<(Channel, Channel)>,
    table: Table,
    reply: Reply,
    after: Table,
    next: BuildChannelMap,
    progress: Progress<ChannelMap, MappingsError>,
)
    requires
        task.has_come_to(channels, asked, pairs),
        are_distinct(channels),
        has_distinct_ids(pairs),
        are_keys(channels, pairs),
        are_values(task.dest_channels@, pairs),
        leads_along(table, pairs),
        serves(table, asked, reply, after),
        task.awaits() is Some,
        reply.answers(task.awaits()->0),
        task.step(reply, next, progress),
    ensures
        after == table,
        next.dest_channels == task.dest_channels,
        match progress {
            Progress::Perform(action) => next.has_come_to(channels, action, pairs),
            Progress::Done(found) => finds_pairs(found@, channels, pairs),
            Progress::Failed(_) => false,
        },
{
    if let MapStage::LookingUp { src, pending, map, failed } = task.stage {
        let done = channels.len() - pending@.len() - 1;
        let ended = task.at(MapStage::Ended);
        let dests = task.dest_channels@;
        assert(is_key(channels[done], pairs));
        let j = choose|j: int| 0 <= j < pairs.len() && is_copy(src, (#[trigger] pairs[j]).0);
        assert(is_registered(table, pairs[j].0.id));
        let id = pairs[j].1.id;
        assert(destination(reply->Mapping_0) == Some(id));
        assert(is_listed(pairs[j].1, dests));
        let l = choose|l: int| 0 <= l < dests.len() && is_copy(#[trigger] dests[l], pairs[j].1);
        last_with_id_found(dests, id);
        let at = last_with_id(dests, id)->0;
        assert(dests[l].id == id);
        assert(is_value(dests[at], pairs));
        let m = choose|m: int| 0 <= m < pairs.len() && is_copy(dests[at], (#[trigger] pairs[m]).1);
        if m < j {
            assert(pairs[m].1.id != pairs[j].1.id);
        } else if j < m {
            assert(pairs[j].1.id != pairs[m].1.id);
        }
        let dest = choose|dest: Channel|
            #![trigger is_copy(dest, dests[at])]
            {
                &&& is_copy(dest, dests[at])
                &&& ended.continues(
                    pending@,
                    channel_added(map@, src, dest),
                    None,
                    next,
                    progress,
                )
            };
        channel_index_found(map@, src);
        let index = channel_index(map@, src);
        if index < map@.len() {
            assert(map@[index].0 == channels.take(done)[index]);
            assert(channels[index].id != channels[done].id);
        }
        let added = map@.push((src, dest));
        assert(channel_added(map@, src, dest) == added);
        assert(is_pair_copy(added[done], pairs[j]));
        assert(finds_pairs(added, channels.take(done + 1), pairs)) by {
            assert forall|i: int| 0 <= i < added.len() implies (#[trigger] added[i]).0
                == channels.take(done + 1)[i] && is_one_of(added[i], pairs) by {
                if i < done {
                    assert(map@[i].0 == channels.take(done)[i]);
                    assert(added[i] == map@[i]);
                }
            }
        }
        mapping_continues(ended, channels, done + 1, added, pairs, next, progress);
    }
}

/// Right after channels that were not registered before were registered, looking up what
/// mirrors them gives back the map that was registered: every pair of it, and no other, in
/// the order in which the channels are looked up. The table is left as it is.
pub proof fn registered_map_is_found_again(
    registering: Seq<RegisterMappings>,
    registering_replies: Seq<Reply>,
    registering_progress: Seq<Progress<(), MappingsError>>,
    registering_tables: Seq<Table>,
    mapping: Seq<BuildChannelMap>,
    replies: Seq<Reply>,
    progress: Seq<Progress<ChannelMap, MappingsError>>,
    tables: Seq<Table>,
    map: Seq<(Channel, Channel)>,
    guild_ids: (u64, u64),
    src_channels: Vec<Channel>,
)
    requires
        is_run(registering, registering_replies, registering_progress),
        is_served(registering_replies, registering_progress, registering_tables),
        registering[0].registers_channels(map, guild_ids),
        registering_replies.len() > 0,
        registering_progress.last() is Done,
        has_distinct_ids(map),
        forall|j: int|
            0 <= j < map.len() ==> !is_registered(
                registering_tables[0],
                (#[trigger] map[j]).0.id,
            ),
        is_run(mapping, replies, progress),
        is_served(replies, progress, tables),
        tables[0] == registering_tables.last(),
        mapping[0].stage == (MapStage::Begin { pending: src_channels }),
        are_distinct(src_channels@),
        are_keys(src_channels@, map),
        are_values(mapping[0].dest_channels@, map),
        replies.len() > 0,
        !(progress.last() is Perform),
    ensures
        progress.last() is Done,
        ({
            let found = progress.last()->Done_0@;
            &&& found.len() == src_channels@.len()
            &&& forall|i: int|
                0 <= i < found.len() ==> (#[trigger] found[i]).0 == src_channels@[i] && is_one_of(
                    found[i],
                    map,
                )
            &&& forall|j: int| 0 <= j < map.len() ==> #[trigger] is_found(map[j], found)
        }),
        tables.last() == tables[0],
{
    registered_mappings_are_added(
        registering,
        registering_replies,
        registering_progress,
        registering_tables,
    );
    registering_leads_along(registering[0], map, guild_ids, registering_tables[0]);
    found_up_to(mapping, replies, progress, tables, map, src_channels, replies.len() - 1);
    let found = progress.last()->Done_0@;
    assert forall|j: int| 0 <= j < map.len() implies #[trigger] is_found(map[j], found) by {
        assert(is_listed(map[j].0, src_channels@));
        let i = choose|i: int|
            0 <= i < src_channels@.len() && is_copy(#[trigger] src_channels@[i], map[j].0);
        assert(found[i].0 == src_channels@[i]);
        let k = choose|k: int| 0 <= k < map.len() && is_pair_copy(found[i], #[trigger] map[k]);
        if k < j {
            assert(map[k].0.id != map[j].0.id);
        } else if j < k {
            assert(map[j].0.id != map[k].0.id);
        }
        assert(is_pair_copy(found[i], map[j]));
    }
}

proof fn found_up_to(
    tasks: Seq<BuildChannelMap>,
    replies: Seq<Reply>,
    progress: Seq<Progress<ChannelMap, MappingsError>>,
    tables: Seq<Table>,
    pairs: Seq<(Channel, Channel)>,
    channels: Vec<Channel>,
    k: int,
)
    requires
        is_run(tasks, replies, progress),
        is_served(replies, progress, tables),
        tasks[0].stage == (MapStage::Begin { pending: channels }),
        are_distinct(channels@),
        has_distinct_ids(pairs),
        are_keys(channels@, pairs),
        are_values(tasks[0].dest_channels@, pairs),
        leads_along(tables[0], pairs),
        0 <= k < replies.len(),
    ensures
        tables[k] == tables[0],
        tasks[k + 1].dest_channels == tasks[0].dest_channels,
        match progress[k] {
            Progress::Perform(action) => tasks[k + 1].has_come_to(channels@, action, pairs),
            Progress::Done(found) => finds_pairs(found@, channels@, pairs),
            Progress::Failed(_) => false,
        },
    decreases k,
{
    let reply = replies[k];
    if k > 0 {
        found_up_to(tasks, replies, progress, tables, pairs, channels, k - 1);
        if !(progress[k - 1] is Perform) {
            runs_end(tasks, replies, progress, k - 1);
        }
        mapping_goes_on(
            tasks[k],
            channels@,
            progress[k - 1]->Perform_0,
            pairs,
            tables[0],
            reply,
            tables[k],
            tasks[k + 1],
            progress[k],
        );
    } else {
        let ended = tasks[0].at(MapStage::Ended);
        assert(channels@.skip(0) =~= channels@);
        mapping_continues(
            ended,
            channels@,
            0,
            Seq::empty(),
            pairs,
            tasks[1],
            progress[0],
        );
    }
}

} // verus!
