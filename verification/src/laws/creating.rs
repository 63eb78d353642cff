//! What is created for channels, what is registered then, and where it is put.
use super::{keeps, leads, mirror_id, same_overwrites};
use crate::blacklist::Blacklist;
use crate::errors::MappingsError;
use crate::model::{encoded_view, is_copy, Channel, ChannelType, Guild, GuildFeature, IdMapping};
use crate::operation::{destination, Action, NewChannel, Progress, Reply, Task};
use crate::util::channel_map::{BuildChannelMap, MapStage};
use crate::util::create::{
    channel_added, channel_index, channel_index_found, is_skipped, mirrored_kind, unskipped,
    ChannelMap, CreateChannels, CreateStage,
};
use crate::util::mirror::{is_placed, MirrorChannels, MirrorError, MirrorStage};
use crate::util::register::{Record, RegisterMappings, RegisterStage};
use crate::util::reposition::{
    category_for, category_for_mirrors, is_category_pair, moves, moves_follow_categories,
    new_parent, positions, RepositionChannels,
};
use vstd::prelude::*;

verus! {

// ---------------------------------------------------------------------------
// Channels
// ---------------------------------------------------------------------------

/// Whether a guild is a community.
pub open spec fn is_community(guild: Guild) -> bool {
    guild.features@.contains(GuildFeature::Community)
}

/// What a channel of the given kind becomes in a guild: a community holds everything that can be
/// mirrored as it is, and any other guild holds text instead of announcements and forums, voice
/// instead of stages, and no directories. Nothing else is mirrored.
pub open spec fn held_kind(kind: ChannelType, community: bool) -> Option<ChannelType> {
    if kind is GuildText || kind is GuildVoice || kind is GuildCategory {
        Some(kind)
    } else if kind is GuildAnnouncement || kind is GuildForum || kind is GuildStageVoice
        || kind is GuildDirectory {
        if community {
            Some(kind)
        } else if kind is GuildStageVoice {
            Some(ChannelType::GuildVoice)
        } else if kind is GuildDirectory {
            None
        } else {
            Some(ChannelType::GuildText)
        }
    } else {
        None
    }
}

/// Every guild holds of a channel what it can.
pub proof fn kinds_are_held(kind: ChannelType, community: bool)
    ensures
        mirrored_kind(kind, community) == held_kind(kind, community),
{
}

/// A channel is passed over only where the guild cannot hold it at all.
pub proof fn only_unheld_channels_are_passed_over(channel: Channel, community: bool)
    ensures
        is_skipped(channel, community) ==> held_kind(channel.kind, community) is None,
{
}

/// Whether a request creates a channel in a guild as another one is: with its name, or one that
/// stands for it, its topic, its permissions, and of the kind that the guild holds.
pub open spec fn creates_like(request: NewChannel, channel: Channel, dest_guild: Guild) -> bool {
    &&& request.guild_id == dest_guild.id
    &&& request.name@ == match channel.name {
        Some(name) => name@,
        None => "no-name"@,
    }
    &&& held_kind(channel.kind, is_community(dest_guild)) == Some(request.kind)
    &&& request.nsfw == channel.nsfw
    &&& request.topic == channel.topic
    &&& same_overwrites(request.permission_overwrites, channel.permission_overwrites)
}

/// Whether a copy of a channel is among some channels.
pub open spec fn is_among(channel: Channel, channels: Seq<Channel>) -> bool {
    exists|y: int| 0 <= y < channels.len() && is_copy(#[trigger] channels[y], channel)
}

/// The channels that are to be mirrored, and where: those that are not barred, and whose
/// identifier is free. What was found need not be mirrored.
pub struct Job {
    pub sources: Seq<Channel>,
    pub barred: Seq<Blacklist>,
    pub free: spec_fn(u64) -> bool,
    pub found: spec_fn(u64) -> bool,
    pub src_guild_id: u64,
    pub dest_guild: Guild,
}

impl Job {
    /// Whether a channel is one of those that are to be mirrored.
    pub open spec fn is_source(self, channel: Channel) -> bool {
        &&& !self.barred.contains(Blacklist::Channel(channel.id))
        &&& (self.free)(channel.id)
        &&& self.sources.contains(channel)
    }

    /// Whether a channel is a copy of one of those that are to be mirrored.
    pub open spec fn holds(self, channel: Channel) -> bool {
        exists|src: Channel| #[trigger] self.is_source(src) && is_copy(channel, src)
    }

    /// Whether a channel was asked for that is like the given one.
    pub open spec fn was_asked_for(self, channel: Channel, actions: Seq<Option<Action>>) -> bool {
        exists|j: int|
            0 <= j < actions.len() && ((#[trigger] actions[j]) matches Some(
                Action::CreateChannel(request),
            ) && creates_like(request, channel, self.dest_guild))
    }

    /// Whether nothing is left to be asked for a channel: it is barred, it was found, the guild cannot
    /// hold it, or it was asked for.
    pub open spec fn is_settled(self, channel: Channel, actions: Seq<Option<Action>>) -> bool {
        ||| self.barred.contains(Blacklist::Channel(channel.id))
        ||| (self.found)(channel.id)
        ||| held_kind(channel.kind, is_community(self.dest_guild)) is None
        ||| self.was_asked_for(channel, actions)
    }

    /// Whether every channel is settled, or a copy of it is among those that are left.
    pub open spec fn covers(self, left: Seq<Channel>, actions: Seq<Option<Action>>) -> bool {
        forall|x: int|
            0 <= x < self.sources.len() ==> self.is_settled(#[trigger] self.sources[x], actions)
                || is_among(self.sources[x], left)
    }

    /// Whether all of these are to be mirrored.
    pub open spec fn holds_all(self, channels: Seq<Channel>) -> bool {
        forall|i: int| 0 <= i < channels.len() ==> self.holds(#[trigger] channels[i])
    }

    /// Whether answer `j` tells that a channel was created as one of those that are to be mirrored.
    pub open spec fn creates(
        self,
        src: Channel,
        dest: Channel,
        actions: Seq<Option<Action>>,
        replies: Seq<Reply>,
        j: int,
    ) -> bool {
        &&& 0 < j < replies.len()
        &&& self.is_source(src)
        &&& actions[j - 1] matches Some(Action::CreateChannel(request)) && creates_like(
            request,
            src,
            self.dest_guild,
        )
        &&& replies[j] == Reply::Channel(dest)
    }

    /// Whether a channel was created for one that is the same as the given one.
    pub open spec fn was_created(
        self,
        key: Channel,
        dest: Channel,
        actions: Seq<Option<Action>>,
        replies: Seq<Reply>,
        k: int,
    ) -> bool {
        exists|src: Channel, j: int|
            {
                &&& #[trigger] self.creates(src, dest, actions, replies, j)
                &&& j <= k
                &&& key.id == src.id
                &&& encoded_view(key.encoded) == encoded_view(src.encoded)
            }
    }

    /// Whether all that was made was created for what it mirrors.
    pub open spec fn were_created(
        self,
        made: Seq<(Channel, Channel)>,
        actions: Seq<Option<Action>>,
        replies: Seq<Reply>,
        k: int,
    ) -> bool {
        forall|e: int|
            0 <= e < made.len() ==> self.was_created(
                (#[trigger] made[e]).0,
                made[e].1,
                actions,
                replies,
                k,
            )
    }

    /// Whether a mapping leads from a channel that is to be mirrored to what was created for it, and
    /// keeps both.
    pub open spec fn is_recorded(
        self,
        mapping: IdMapping,
        actions: Seq<Option<Action>>,
        replies: Seq<Reply>,
        k: int,
    ) -> bool {
        exists|src: Channel, dest: Channel, j: int|
            {
                &&& #[trigger] self.creates(src, dest, actions, replies, j)
                &&& j <= k
                &&& leads(mapping@, src.id, dest.id, self.src_guild_id, self.dest_guild.id)
                &&& keeps(mapping@, src.encoded, dest.encoded)
            }
    }

    /// Whether all records that are mappings are those of what was created.
    pub open spec fn are_recorded(
        self,
        records: Seq<Record>,
        actions: Seq<Option<Action>>,
        replies: Seq<Reply>,
        k: int,
    ) -> bool {
        forall|e: int|
            0 <= e < records.len() && (#[trigger] records[e]) is Ok ==> self.is_recorded(
                records[e]->Ok_0,
                actions,
                replies,
                k,
            )
    }

    /// Whether a creation waits for the answer after `k`.
    pub open spec fn is_creating(
        self,
        task: CreateChannels,
        actions: Seq<Option<Action>>,
        replies: Seq<Reply>,
        k: int,
    ) -> bool {
        &&& task.dest_guild_id == self.dest_guild.id
        &&& task.community == is_community(self.dest_guild)
        &&& match task.stage {
            CreateStage::Creating { src, pending, made } => {
                &&& self.holds(src)
                &&& self.holds_all(pending@)
                &&& self.covers(pending@, actions)
                &&& self.were_created(made@, actions, replies, k)
                &&& actions[k] matches Some(Action::CreateChannel(request)) && creates_like(
                    request,
                    src,
                    self.dest_guild,
                )
            },
            CreateStage::Waiting { pending, made } => {
                &&& self.holds_all(pending@)
                &&& self.covers(pending@, actions)
                &&& self.were_created(made@, actions, replies, k)
            },
            _ => false,
        }
    }
}

/// Once a channel is settled, the others cover what is left.
pub(crate) proof fn covered_without(
    job: Job,
    left: Seq<Channel>,
    at: int,
    actions: Seq<Option<Action>>,
)
    requires
        job.covers(left, actions),
        0 <= at < left.len(),
        forall|src: Channel|
            is_copy(left[at], src) ==> #[trigger] job.is_settled(src, actions),
    ensures
        job.covers(left.remove(at), actions),
{
    let rest = left.remove(at);
    assert forall|x: int| 0 <= x < job.sources.len() implies job.is_settled(
        #[trigger] job.sources[x],
        actions,
    ) || is_among(job.sources[x], rest) by {
        let src = job.sources[x];
        if !job.is_settled(src, actions) {
            let y = choose|y: int| 0 <= y < left.len() && is_copy(#[trigger] left[y], src);
            if y < at {
                assert(rest[y] == left[y]);
            } else {
                assert(rest[y - 1] == left[y]);
            }
        }
    }
}

/// A request that is like a copy is like what was copied.
proof fn like_what_was_copied(request: NewChannel, copy: Channel, src: Channel, dest_guild: Guild)
    requires
        creates_like(request, copy, dest_guild),
        is_copy(copy, src),
    ensures
        creates_like(request, src, dest_guild),
{
}

/// Skipping what is passed over keeps what is to be mirrored.
proof fn unskipped_are_held(
    job: Job,
    pending: Seq<Channel>,
    community: bool,
    actions: Seq<Option<Action>>,
)
    requires
        job.holds_all(pending),
        job.covers(pending, actions),
        community == is_community(job.dest_guild),
    ensures
        ({
            let left = unskipped(pending, community);
            &&& job.holds_all(left)
            &&& job.covers(left, actions)
            &&& left.len() > 0 ==> !is_skipped(left[0], community)
        }),
    decreases pending.len(),
{
    if pending.len() > 0 && is_skipped(pending[0], community) {
        let rest = pending.drop_first();
        assert forall|i: int| 0 <= i < rest.len() implies job.holds(#[trigger] rest[i]) by {
            assert(rest[i] == pending[i + 1]);
        }
        only_unheld_channels_are_passed_over(pending[0], community);
        covered_without(job, pending, 0, actions);
        assert(pending.remove(0) =~= rest);
        unskipped_are_held(job, rest, community, actions);
    }
}

/// What a creation has come to while some channels are left.
proof fn creating_continues(
    job: Job,
    task: CreateChannels,
    pending: Seq<Channel>,
    made: Seq<(Channel, Channel)>,
    next: CreateChannels,
    progress: Progress<ChannelMap, MappingsError>,
    actions: Seq<Option<Action>>,
    replies: Seq<Reply>,
    k: int,
)
    requires
        task.dest_guild_id == job.dest_guild.id,
        task.community == is_community(job.dest_guild),
        job.holds_all(pending),
        job.covers(pending, actions),
        0 <= k < actions.len(),
        job.were_created(made, actions, replies, k),
        task.continues(pending, made, next, progress),
        progress matches Progress::Perform(action) ==> actions[k] == Some(action),
    ensures
        match progress {
            Progress::Perform(action) => job.is_creating(next, actions, replies, k) && (
            action matches Action::CreateChannel(request) && exists|src: Channel|
                #[trigger] job.is_source(src) && creates_like(request, src, job.dest_guild)),
            Progress::Done(map) => job.were_created(map@, actions, replies, k) && job.covers(
                Seq::empty(),
                actions,
            ),
            Progress::Failed(_) => true,
        },
{
    unskipped_are_held(job, pending, task.community, actions);
    let left = unskipped(pending, task.community);
    if left.len() == 0 {
        assert(left =~= Seq::empty());
    } else {
        assert(job.holds(left[0]));
        kinds_are_held(left[0].kind, task.community);
        if let Progress::Perform(Action::CreateChannel(request)) = progress {
            let src = choose|src: Channel| #[trigger]
                job.is_source(src) && is_copy(left[0], src);
            like_what_was_copied(request, left[0], src, job.dest_guild);
            assert forall|src: Channel| is_copy(left[0], src) implies #[trigger] job.is_settled(
                src,
                actions,
            ) by {
                like_what_was_copied(request, left[0], src, job.dest_guild);
                assert(job.was_asked_for(src, actions));
            }
            covered_without(job, left, 0, actions);
            assert(left.remove(0) =~= left.drop_first());
        }
        assert forall|i: int| 0 <= i < left.drop_first().len() implies job.holds(
            #[trigger] left.drop_first()[i],
        ) by {
            assert(left.drop_first()[i] == left[i + 1]);
        }
    }
}

/// What was created before was created.
proof fn created_stays_created(
    job: Job,
    made: Seq<(Channel, Channel)>,
    actions: Seq<Option<Action>>,
    replies: Seq<Reply>,
    k: int,
)
    requires
        job.were_created(made, actions, replies, k - 1),
    ensures
        job.were_created(made, actions, replies, k),
{
    assert forall|e: int| 0 <= e < made.len() implies job.was_created(
        (#[trigger] made[e]).0,
        made[e].1,
        actions,
        replies,
        k,
    ) by {
        assert(job.was_created(made[e].0, made[e].1, actions, replies, k - 1));
        let (src, j) = choose|src: Channel, j: int|
            {
                &&& #[trigger] job.creates(src, made[e].1, actions, replies, j)
                &&& j <= k - 1
                &&& made[e].0.id == src.id
                &&& encoded_view(made[e].0.encoded) == encoded_view(src.encoded)
            };
        assert(job.creates(src, made[e].1, actions, replies, j));
    }
}

/// One step of a creation.
proof fn creating_goes_on(
    job: Job,
    task: CreateChannels,
    next: CreateChannels,
    progress: Progress<ChannelMap, MappingsError>,
    actions: Seq<Option<Action>>,
    replies: Seq<Reply>,
    k: int,
)
    requires
        job.is_creating(task, actions, replies, k - 1),
        task.awaits() is Some,
        replies[k].answers(task.awaits()->0),
        task.step(replies[k], next, progress),
        0 < k < replies.len(),
        replies.len() == actions.len(),
        progress matches Progress::Perform(action) ==> actions[k] == Some(action),
    ensures
        match progress {
            Progress::Perform(action) => job.is_creating(next, actions, replies, k) && (
            action == Action::Sleep(1) || (action matches Action::CreateChannel(request) && exists|
                src: Channel,
            | #[trigger] job.is_source(src) && creates_like(request, src, job.dest_guild))),
            Progress::Done(map) => job.were_created(map@, actions, replies, k) && job.covers(
                Seq::empty(),
                actions,
            ),
            Progress::Failed(_) => true,
        },
{
    match task.stage {
        CreateStage::Creating { src, pending, made } => {
            created_stays_created(job, made@, actions, replies, k);
            if let Reply::Channel(dest) = replies[k] {
                let origin = choose|origin: Channel| #[trigger]
                    job.is_source(origin) && is_copy(src, origin);
                if let Some(Action::CreateChannel(request)) = actions[k - 1] {
                    like_what_was_copied(request, src, origin, job.dest_guild);
                }
                assert(job.creates(origin, dest, actions, replies, k));
                channel_index_found(made@, src);
                let added = channel_added(made@, src, dest);
                assert forall|e: int| 0 <= e < added.len() implies job.was_created(
                    (#[trigger] added[e]).0,
                    added[e].1,
                    actions,
                    replies,
                    k,
                ) by {
                    if e != channel_index(made@, src) {
                        assert(added[e] == made@[e]);
                    } else {
                        assert(added[e].1 == dest);
                    }
                }
            }
        },
        CreateStage::Waiting { pending, made } => {
            created_stays_created(job, made@, actions, replies, k);
            if replies[k] is Done {
                creating_continues(
                    job,
                    task.at(CreateStage::Ended),
                    pending@,
                    made@,
                    next,
                    progress,
                    actions,
                    replies,
                    k,
                );
            }
        },
        _ => {},
    }
}

/// What was created is what is recorded.
proof fn created_is_recorded(
    job: Job,
    made: Seq<(Channel, Channel)>,
    task: RegisterMappings,
    actions: Seq<Option<Action>>,
    replies: Seq<Reply>,
    k: int,
)
    requires
        job.were_created(made, actions, replies, k),
        task.registers_channels(made, (job.src_guild_id, job.dest_guild.id)),
    ensures
        job.are_recorded(task.records@, actions, replies, k),
{
    let records = task.records@;
    assert forall|e: int| 0 <= e < records.len() && (#[trigger] records[e]) is Ok implies
        job.is_recorded(records[e]->Ok_0, actions, replies, k) by {
        assert(job.was_created(made[e].0, made[e].1, actions, replies, k));
        let (src, j) = choose|src: Channel, j: int|
            {
                &&& #[trigger] job.creates(src, made[e].1, actions, replies, j)
                &&& j <= k
                &&& made[e].0.id == src.id
                &&& encoded_view(made[e].0.encoded) == encoded_view(src.encoded)
            };
        assert(job.creates(src, made[e].1, actions, replies, j));
    }
}

/// What was recorded before is recorded.
proof fn recorded_stays_recorded(
    job: Job,
    records: Seq<Record>,
    actions: Seq<Option<Action>>,
    replies: Seq<Reply>,
    k: int,
)
    requires
        job.are_recorded(records, actions, replies, k - 1),
    ensures
        job.are_recorded(records, actions, replies, k),
{
    assert forall|e: int| 0 <= e < records.len() && (#[trigger] records[e]) is Ok implies
        job.is_recorded(records[e]->Ok_0, actions, replies, k) by {
        let mapping = records[e]->Ok_0;
        assert(job.is_recorded(mapping, actions, replies, k - 1));
        let (src, dest, j) = choose|src: Channel, dest: Channel, j: int|
            {
                &&& #[trigger] job.creates(src, dest, actions, replies, j)
                &&& j <= k - 1
                &&& leads(mapping@, src.id, dest.id, job.src_guild_id, job.dest_guild.id)
                &&& keeps(mapping@, src.encoded, dest.encoded)
            };
        assert(job.creates(src, dest, actions, replies, j));
    }
}

/// The same mapping is recorded, whatever holds it.
proof fn recorded_by_view(
    job: Job,
    mapping: IdMapping,
    other: IdMapping,
    actions: Seq<Option<Action>>,
    replies: Seq<Reply>,
    k: int,
)
    requires
        job.is_recorded(mapping, actions, replies, k),
        mapping@ == other@,
    ensures
        job.is_recorded(other, actions, replies, k),
{
    let (src, dest, j) = choose|src: Channel, dest: Channel, j: int|
        {
            &&& #[trigger] job.creates(src, dest, actions, replies, j)
            &&& j <= k
            &&& leads(mapping@, src.id, dest.id, job.src_guild_id, job.dest_guild.id)
            &&& keeps(mapping@, src.encoded, dest.encoded)
        };
    assert(job.creates(src, dest, actions, replies, j));
}

// ---------------------------------------------------------------------------
// Places
// ---------------------------------------------------------------------------

/// Whether the mirror of a channel was looked up, and which it is.
pub open spec fn is_mirror(
    id: u64,
    mirror: u64,
    actions: Seq<Option<Action>>,
    replies: Seq<Reply>,
) -> bool {
    exists|j: int|
        {
            &&& 0 < j < replies.len()
            &&& actions[j - 1] == Some(Action::GetMapping { orig_id: id })
            &&& (#[trigger] replies[j]) matches Reply::Mapping(Some(found)) && mirror_id(found)
                == mirror
        }
}

/// Whether a channel is to be moved into a category: as the mirror of a channel that is in the
/// category that this one mirrors.
pub open spec fn is_move(
    channel_id: u64,
    parent_id: u64,
    channels: Seq<Channel>,
    actions: Seq<Option<Action>>,
    replies: Seq<Reply>,
) -> bool {
    exists|x: int, y: int|
        #![trigger channels[x], channels[y]]
        {
            &&& 0 <= x < channels.len()
            &&& 0 <= y < channels.len()
            &&& !(channels[x].kind is GuildCategory)
            &&& channels[y].kind is GuildCategory
            &&& channels[x].parent_id == Some(channels[y].id)
            &&& is_mirror(channels[x].id, channel_id, actions, replies)
            &&& is_mirror(channels[y].id, parent_id, actions, replies)
        }
}

/// Whether a channel is to be put at a position: as the mirror of a channel that has it.
pub open spec fn is_position(
    place: (u64, u64),
    channels: Seq<Channel>,
    actions: Seq<Option<Action>>,
    replies: Seq<Reply>,
) -> bool {
    exists|x: int|
        {
            &&& 0 <= x < channels.len()
            &&& (#[trigger] channels[x]).position matches Some(position) && place.1
                == position as u64
            &&& is_mirror(channels[x].id, place.0, actions, replies)
        }
}

/// Whether a map leads from some channels to their mirrors.
pub open spec fn is_map_of(
    map: Seq<(Channel, Channel)>,
    channels: Seq<Channel>,
    actions: Seq<Option<Action>>,
    replies: Seq<Reply>,
) -> bool {
    forall|e: int|
        0 <= e < map.len() ==> channels.contains((#[trigger] map[e]).0) && is_mirror(
            map[e].0.id,
            map[e].1.id,
            actions,
            replies,
        )
}

/// Whether a map of some channels waits for the answer after `k`.
pub open spec fn is_building(
    task: BuildChannelMap,
    channels: Seq<Channel>,
    actions: Seq<Option<Action>>,
    replies: Seq<Reply>,
    k: int,
) -> bool {
    &&& task.stage matches MapStage::LookingUp { src, pending, map, failed: _ }
    &&& channels.contains(src)
    &&& forall|i: int| 0 <= i < pending@.len() ==> channels.contains(#[trigger] pending@[i])
    &&& is_map_of(map@, channels, actions, replies)
    &&& actions[k] == Some(Action::GetMapping { orig_id: src.id })
}

/// What a map has come to while some channels are left.
proof fn building_continues(
    task: BuildChannelMap,
    channels: Seq<Channel>,
    pending: Seq<Channel>,
    map: Seq<(Channel, Channel)>,
    failed: Option<crate::errors::DatabaseError>,
    next: BuildChannelMap,
    progress: Progress<ChannelMap, MappingsError>,
    actions: Seq<Option<Action>>,
    replies: Seq<Reply>,
    k: int,
)
    requires
        forall|i: int| 0 <= i < pending.len() ==> channels.contains(#[trigger] pending[i]),
        is_map_of(map, channels, actions, replies),
        task.continues(pending, map, failed, next, progress),
        progress matches Progress::Perform(action) ==> actions[k] == Some(action),
    ensures
        match progress {
            Progress::Perform(action) => is_building(next, channels, actions, replies, k)
                && action is GetMapping,
            Progress::Done(found) => is_map_of(found@, channels, actions, replies),
            Progress::Failed(_) => true,
        },
{
    if pending.len() > 0 {
        assert forall|i: int| 0 <= i < pending.drop_first().len() implies channels.contains(
            #[trigger] pending.drop_first()[i],
        ) by {
            assert(pending.drop_first()[i] == pending[i + 1]);
        }
    }
}

/// One step of a map.
proof fn building_goes_on(
    task: BuildChannelMap,
    channels: Seq<Channel>,
    next: BuildChannelMap,
    progress: Progress<ChannelMap, MappingsError>,
    actions: Seq<Option<Action>>,
    replies: Seq<Reply>,
    k: int,
)
    requires
        is_building(task, channels, actions, replies, k - 1),
        task.step(replies[k], next, progress),
        0 < k < replies.len(),
        progress matches Progress::Perform(action) ==> actions[k] == Some(action),
    ensures
        match progress {
            Progress::Perform(action) => is_building(next, channels, actions, replies, k)
                && action is GetMapping,
            Progress::Done(found) => is_map_of(found@, channels, actions, replies),
            Progress::Failed(_) => true,
        },
{
    let ended = task.at(MapStage::Ended);
    if let MapStage::LookingUp { src, pending, map, failed } = task.stage {
        match replies[k] {
            Reply::Mapping(found) => {
                if failed is None {
                    match destination(found) {
                        Some(id) => {
                            crate::util::channel_map::last_with_id_found(task.dest_channels@, id);
                            match crate::util::channel_map::last_with_id(task.dest_channels@, id) {
                                Some(at) => {
                                    let dest = choose|dest: Channel|
                                        #![trigger is_copy(dest, task.dest_channels@[at])]
                                        {
                                            &&& is_copy(dest, task.dest_channels@[at])
                                            &&& ended.continues(
                                                pending@,
                                                channel_added(map@, src, dest),
                                                None,
                                                next,
                                                progress,
                                            )
                                        };
                                    let added = channel_added(map@, src, dest);
                                    channel_index_found(map@, src);
                                    assert(is_mirror(src.id, dest.id, actions, replies)) by {
                                        assert(replies[k] is Mapping);
                                    }
                                    assert forall|e: int| 0 <= e < added.len() implies
                                        channels.contains((#[trigger] added[e]).0) && is_mirror(
                                        added[e].0.id,
                                        added[e].1.id,
                                        actions,
                                        replies,
                                    ) by {
                                        if e < map@.len() {
                                            assert(added[e].0 == map@[e].0);
                                            if e != channel_index(map@, src) {
                                                assert(added[e] == map@[e]);
                                            }
                                        }
                                    }
                                    building_continues(
                                        ended,
                                        channels,
                                        pending@,
                                        added,
                                        None,
                                        next,
                                        progress,
                                        actions,
                                        replies,
                                        k,
                                    );
                                },
                                None => {
                                    building_continues(
                                        ended,
                                        channels,
                                        pending@,
                                        map@,
                                        None,
                                        next,
                                        progress,
                                        actions,
                                        replies,
                                        k,
                                    );
                                },
                            }
                        },
                        None => {
                            building_continues(
                                ended,
                                channels,
                                pending@,
                                map@,
                                None,
                                next,
                                progress,
                                actions,
                                replies,
                                k,
                            );
                        },
                    }
                } else {
                    building_continues(
                        ended,
                        channels,
                        pending@,
                        map@,
                        failed,
                        next,
                        progress,
                        actions,
                        replies,
                        k,
                    );
                }
            },
            Reply::Failed(crate::errors::Failure::Database(error)) => {
                let first = match failed {
                    Some(first) => first,
                    None => error,
                };
                building_continues(
                    ended,
                    channels,
                    pending@,
                    map@,
                    Some(first),
                    next,
                    progress,
                    actions,
                    replies,
                    k,
                );
            },
            _ => {},
        }
    }
}

/// Where every move and position comes from.
pub open spec fn are_places_of(
    task: RepositionChannels,
    dest_guild_id: u64,
    channels: Seq<Channel>,
    actions: Seq<Option<Action>>,
    replies: Seq<Reply>,
) -> bool {
    &&& task.dest_guild_id == dest_guild_id
    &&& forall|e: int|
        0 <= e < task.moves@.len() ==> is_move(
            (#[trigger] task.moves@[e]).0,
            task.moves@[e].1,
            channels,
            actions,
            replies,
        )
    &&& forall|e: int|
        0 <= e < task.positions@.len() ==> is_position(
            #[trigger] task.positions@[e],
            channels,
            actions,
            replies,
        )
}

/// Each position is that of a pair.
proof fn positions_follow_pairs(map: Seq<(Channel, Channel)>, e: int)
    requires
        0 <= e < positions(map).len(),
    ensures
        exists|i: int|
            {
                &&& 0 <= i < map.len()
                &&& (#[trigger] map[i]).0.position matches Some(position) && positions(map)[e] == (
                    map[i].1.id,
                    position as u64,
                )
            },
    decreases map.len(),
{
    let before = positions(map.drop_last());
    if e < before.len() {
        positions_follow_pairs(map.drop_last(), e);
        let i = choose|i: int|
            {
                &&& 0 <= i < map.drop_last().len()
                &&& (#[trigger] map.drop_last()[i]).0.position matches Some(position) && before[e]
                    == (map.drop_last()[i].1.id, position as u64)
            };
        assert(map[i] == map.drop_last()[i]);
    } else {
        assert(map[map.len() - 1] == map.last());
    }
}

/// The moves and positions that a map calls for are those of the channels it leads from.
proof fn placing_starts(
    task: RepositionChannels,
    dest_guild_id: u64,
    map: Seq<(Channel, Channel)>,
    channels: Seq<Channel>,
    actions: Seq<Option<Action>>,
    replies: Seq<Reply>,
)
    requires
        task.starts(dest_guild_id, map),
        is_map_of(map, channels, actions, replies),
    ensures
        are_places_of(task, dest_guild_id, channels, actions, replies),
{
    assert forall|e: int| 0 <= e < task.moves@.len() implies is_move(
        (#[trigger] task.moves@[e]).0,
        task.moves@[e].1,
        channels,
        actions,
        replies,
    ) by {
        moves_follow_categories(map, map, e);
        let i = choose|i: int| #![trigger map[i]]
            0 <= i < map.len() && moves(map, map)[e].0 == map[i].1.id && new_parent(map, map[i])
                == Some(moves(map, map)[e].1);
        let parent_id = map[i].0.parent_id->0;
        category_for_mirrors(map, parent_id);
        let j = choose|j: int| #![trigger map[j]]
            0 <= j < map.len() && is_category_pair(map[j]) && map[j].0.id == parent_id
                && category_for(map, parent_id) == Some(map[j].1.id);
        assert(channels.contains(map[i].0) && channels.contains(map[j].0));
        let x = choose|x: int| 0 <= x < channels.len() && channels[x] == map[i].0;
        let y = choose|y: int| 0 <= y < channels.len() && channels[y] == map[j].0;
        assert(channels[x].parent_id == Some(channels[y].id));
    }
    assert forall|e: int| 0 <= e < task.positions@.len() implies is_position(
        #[trigger] task.positions@[e],
        channels,
        actions,
        replies,
    ) by {
        positions_follow_pairs(map, e);
        let i = choose|i: int|
            {
                &&& 0 <= i < map.len()
                &&& (#[trigger] map[i]).0.position matches Some(position) && positions(map)[e] == (
                    map[i].1.id,
                    position as u64,
                )
            };
        assert(channels.contains(map[i].0));
        let x = choose|x: int| 0 <= x < channels.len() && channels[x] == map[i].0;
        assert(channels[x] == map[i].0);
    }
}

/// Whether an operation puts channels in place.
pub open spec fn is_to_place(
    action: Action,
    dest_guild_id: u64,
    channels: Seq<Channel>,
    actions: Seq<Option<Action>>,
    replies: Seq<Reply>,
) -> bool {
    match action {
        Action::MoveChannel { channel_id, parent_id } => is_move(
            channel_id,
            parent_id,
            channels,
            actions,
            replies,
        ),
        Action::PositionChannels { guild_id, positions } => {
            &&& guild_id == dest_guild_id
            &&& forall|e: int|
                0 <= e < positions@.len() ==> is_position(
                    #[trigger] positions@[e],
                    channels,
                    actions,
                    replies,
                )
        },
        Action::Sleep(seconds) => seconds == 1,
        _ => false,
    }
}

/// One step of putting channels in place.
proof fn placing_goes_on(
    task: RepositionChannels,
    reply: Reply,
    next: RepositionChannels,
    progress: Progress<(), MappingsError>,
    dest_guild_id: u64,
    channels: Seq<Channel>,
    actions: Seq<Option<Action>>,
    replies: Seq<Reply>,
)
    requires
        task.wf(),
        task.stage is Positioning || are_places_of(
            task,
            dest_guild_id,
            channels,
            actions,
            replies,
        ),
        task.step(reply, next, progress),
    ensures
        progress matches Progress::Perform(action) ==> {
            &&& next.stage is Positioning || are_places_of(
                next,
                dest_guild_id,
                channels,
                actions,
                replies,
            )
            &&& is_to_place(action, dest_guild_id, channels, actions, replies)
        },
{
}

// ---------------------------------------------------------------------------
// Mirroring channels
// ---------------------------------------------------------------------------

impl Job {
    /// What an operation that mirroring channels asks for after answer `k` is for: to create a channel
    /// that is to be mirrored, to register what was created for it, to find out what mirrors what, or
    /// to put it in place.
    pub open spec fn is_for(
        self,
        action: Action,
        channels: Seq<Channel>,
        actions: Seq<Option<Action>>,
        replies: Seq<Reply>,
        k: int,
    ) -> bool {
        match action {
            Action::CreateChannel(request) => exists|src: Channel| #[trigger]
                self.is_source(src) && creates_like(request, src, self.dest_guild),
            Action::RegisterMapping(mapping) => self.is_recorded(mapping, actions, replies, k),
            Action::GetGuildChannels(id) => id == self.dest_guild.id,
            Action::GetMapping { orig_id } => exists|c: Channel| #[trigger]
                channels.contains(c) && c.id == orig_id,
            _ => is_to_place(action, self.dest_guild.id, channels, actions, replies),
        }
    }

    /// Whether a registration waits for the answer after `k`.
    pub open spec fn is_registering(
        self,
        task: RegisterMappings,
        actions: Seq<Option<Action>>,
        replies: Seq<Reply>,
        k: int,
    ) -> bool {
        &&& task.wf()
        &&& task.stage is Registering
        &&& self.are_recorded(task.records@, actions, replies, k)
    }

    /// Whether a mirroring of channels waits for the answer after `k`.
    pub open spec fn is_mirroring(
        self,
        task: MirrorChannels,
        channels: Vec<Channel>,
        actions: Seq<Option<Action>>,
        replies: Seq<Reply>,
        k: int,
    ) -> bool {
        &&& task.src_guild_id == self.src_guild_id
        &&& task.dest_guild == self.dest_guild
        &&& task.stage is Creating || self.covers(Seq::empty(), actions)
        &&& match task.stage {
            MirrorStage::Creating { src_channels, creating } => src_channels == channels
                && self.is_creating(creating, actions, replies, k),
            MirrorStage::Registering { src_channels, made: _, registering } => src_channels
                == channels && self.is_registering(registering, actions, replies, k),
            MirrorStage::Listing { src_channels, made: _ } => src_channels == channels,
            MirrorStage::Mapping { mapping } => is_building(
                mapping,
                channels@,
                actions,
                replies,
                k,
            ),
            MirrorStage::Repositioning { repositioning } => {
                &&& repositioning.wf()
                &&& repositioning.stage is Positioning || are_places_of(
                    repositioning,
                    self.dest_guild.id,
                    channels@,
                    actions,
                    replies,
                )
            },
            _ => false,
        }
    }

    /// What a mirroring of channels has come to after answer `k`.
    pub open spec fn has_mirrored(
        self,
        next: MirrorChannels,
        progress: Progress<(), MirrorError>,
        channels: Vec<Channel>,
        actions: Seq<Option<Action>>,
        replies: Seq<Reply>,
        k: int,
    ) -> bool {
        match progress {
            Progress::Perform(action) => {
                &&& self.is_mirroring(next, channels, actions, replies, k)
                &&& self.is_for(action, channels@, actions, replies, k)
            },
            Progress::Done(()) => self.covers(Seq::empty(), actions),
            Progress::Failed(_) => true,
        }
    }
}

/// What follows from a step of putting channels in place.
proof fn mirroring_places(
    job: Job,
    task: MirrorChannels,
    channels: Vec<Channel>,
    before: RepositionChannels,
    reply: Reply,
    repositioning: RepositionChannels,
    repositioned: Progress<(), MappingsError>,
    next: MirrorChannels,
    progress: Progress<(), MirrorError>,
    actions: Seq<Option<Action>>,
    replies: Seq<Reply>,
    k: int,
)
    requires
        task.src_guild_id == job.src_guild_id,
        task.dest_guild == job.dest_guild,
        before.wf(),
        before.stage is Positioning || are_places_of(
            before,
            job.dest_guild.id,
            channels@,
            actions,
            replies,
        ),
        before.step(reply, repositioning, repositioned),
        task.after_repositioning(repositioning, repositioned, next, progress),
        job.covers(Seq::empty(), actions),
    ensures
        job.has_mirrored(next, progress, channels, actions, replies, k),
{
    placing_goes_on(
        before,
        reply,
        repositioning,
        repositioned,
        job.dest_guild.id,
        channels@,
        actions,
        replies,
    );
    if repositioned is Perform {
        assert(before.moves.len() == before.moves@.len());
        assert(repositioning.wf());
    }
}

/// What follows from a step of finding out what mirrors what.
proof fn mirroring_maps(
    job: Job,
    task: MirrorChannels,
    channels: Vec<Channel>,
    mapping: BuildChannelMap,
    mapped: Progress<ChannelMap, MappingsError>,
    next: MirrorChannels,
    progress: Progress<(), MirrorError>,
    actions: Seq<Option<Action>>,
    replies: Seq<Reply>,
    k: int,
)
    requires
        task.src_guild_id == job.src_guild_id,
        task.dest_guild == job.dest_guild,
        match mapped {
            Progress::Perform(action) => is_building(mapping, channels@, actions, replies, k)
                && action is GetMapping && actions[k] == Some(action),
            Progress::Done(found) => is_map_of(found@, channels@, actions, replies),
            Progress::Failed(_) => true,
        },
        task.after_mapping(mapping, mapped, next, progress),
        job.covers(Seq::empty(), actions),
    ensures
        job.has_mirrored(next, progress, channels, actions, replies, k),
{
    match mapped {
        Progress::Perform(action) => {
            if let MapStage::LookingUp { src, .. } = mapping.stage {
                assert(channels@.contains(src));
            }
        },
        Progress::Done(map) => {
            let (before, repositioning, repositioned) = choose|
                before: RepositionChannels,
                repositioning: RepositionChannels,
                repositioned: Progress<(), MappingsError>,
            |
                #![trigger before.step(Reply::Begin, repositioning, repositioned)]
                {
                    &&& before.starts(task.dest_guild.id, map@)
                    &&& before.step(Reply::Begin, repositioning, repositioned)
                    &&& task.after_repositioning(repositioning, repositioned, next, progress)
                };
            placing_starts(before, job.dest_guild.id, map@, channels@, actions, replies);
            mirroring_places(
                job,
                task,
                channels,
                before,
                Reply::Begin,
                repositioning,
                repositioned,
                next,
                progress,
                actions,
                replies,
                k,
            );
        },
        _ => {},
    }
}

/// What follows from a step of registering what was created.
proof fn mirroring_registers(
    job: Job,
    task: MirrorChannels,
    channels: Vec<Channel>,
    made: ChannelMap,
    before: RegisterMappings,
    reply: Reply,
    registering: RegisterMappings,
    registered: Progress<(), MappingsError>,
    next: MirrorChannels,
    progress: Progress<(), MirrorError>,
    actions: Seq<Option<Action>>,
    replies: Seq<Reply>,
    k: int,
)
    requires
        task.src_guild_id == job.src_guild_id,
        task.dest_guild == job.dest_guild,
        before.wf(),
        job.are_recorded(before.records@, actions, replies, k),
        before.step(reply, registering, registered),
        task.after_registering(channels, made, registering, registered, next, progress),
        job.covers(Seq::empty(), actions),
    ensures
        job.has_mirrored(next, progress, channels, actions, replies, k),
{
    assert(before.records.len() == before.records@.len());
    if let Progress::Perform(Action::RegisterMapping(mapping)) = registered {
        let done = match (before.stage, reply) {
            (RegisterStage::Registering(i), Reply::Done) => i + 1,
            _ => 0,
        };
        let record = before.records@[done];
        assert(record is Ok);
        recorded_by_view(job, record->Ok_0, mapping, actions, replies, k);
    }
}

/// What follows from a step of creating channels.
proof fn mirroring_creates(
    job: Job,
    task: MirrorChannels,
    channels: Vec<Channel>,
    creating: CreateChannels,
    created: Progress<ChannelMap, MappingsError>,
    next: MirrorChannels,
    progress: Progress<(), MirrorError>,
    actions: Seq<Option<Action>>,
    replies: Seq<Reply>,
    k: int,
)
    requires
        task.src_guild_id == job.src_guild_id,
        task.dest_guild == job.dest_guild,
        match created {
            Progress::Perform(action) => job.is_creating(creating, actions, replies, k) && (
            action == Action::Sleep(1) || (action matches Action::CreateChannel(request) && exists|
                src: Channel,
            | #[trigger] job.is_source(src) && creates_like(request, src, job.dest_guild))),
            Progress::Done(map) => job.were_created(map@, actions, replies, k) && job.covers(
                Seq::empty(),
                actions,
            ),
            Progress::Failed(_) => true,
        },
        task.after_creating(channels, creating, created, next, progress),
    ensures
        job.has_mirrored(next, progress, channels, actions, replies, k),
{
    if let Progress::Done(made) = created {
        let (before, registering, registered) = choose|
            before: RegisterMappings,
            registering: RegisterMappings,
            registered: Progress<(), MappingsError>,
        |
            #![trigger before.step(Reply::Begin, registering, registered)]
            {
                &&& before.registers_channels(made@, (task.src_guild_id, task.dest_guild.id))
                &&& before.step(Reply::Begin, registering, registered)
                &&& task.after_registering(channels, made, registering, registered, next, progress)
            };
        created_is_recorded(job, made@, before, actions, replies, k);
        mirroring_registers(
            job,
            task,
            channels,
            made,
            before,
            Reply::Begin,
            registering,
            registered,
            next,
            progress,
            actions,
            replies,
            k,
        );
    }
}

/// The first step of mirroring channels.
pub(crate) proof fn mirroring_begins(
    job: Job,
    task: MirrorChannels,
    new_channels: Vec<Channel>,
    channels: Vec<Channel>,
    next: MirrorChannels,
    progress: Progress<(), MirrorError>,
    actions: Seq<Option<Action>>,
    replies: Seq<Reply>,
    k: int,
)
    requires
        task.src_guild_id == job.src_guild_id,
        task.dest_guild == job.dest_guild,
        task.stage == (MirrorStage::Begin { new_channels, src_channels: channels }),
        job.holds_all(new_channels@),
        job.covers(new_channels@, actions),
        0 <= k < actions.len(),
        task.step(Reply::Begin, next, progress),
        progress matches Progress::Perform(action) ==> actions[k] == Some(action),
    ensures
        job.has_mirrored(next, progress, channels, actions, replies, k),
{
    let ended = task.at(MirrorStage::Ended);
    let before = CreateChannels {
        dest_guild_id: task.dest_guild.id,
        community: task.dest_guild.community(),
        stage: CreateStage::Begin { pending: new_channels },
    };
    let (creating, created) = choose|
        creating: CreateChannels,
        created: Progress<ChannelMap, MappingsError>,
    |
        #![trigger ended.after_creating(channels, creating, created, next, progress)]
        {
            &&& before.step(Reply::Begin, creating, created)
            &&& ended.after_creating(channels, creating, created, next, progress)
        };
    creating_continues(
        job,
        before.at(CreateStage::Ended),
        new_channels@,
        Seq::empty(),
        creating,
        created,
        actions,
        replies,
        k,
    );
    mirroring_creates(
        job,
        ended,
        channels,
        creating,
        created,
        next,
        progress,
        actions,
        replies,
        k,
    );
}

/// One step of mirroring channels.
pub(crate) proof fn mirroring_channels_goes_on(
    job: Job,
    task: MirrorChannels,
    channels: Vec<Channel>,
    next: MirrorChannels,
    progress: Progress<(), MirrorError>,
    actions: Seq<Option<Action>>,
    replies: Seq<Reply>,
    k: int,
)
    requires
        job.is_mirroring(task, channels, actions, replies, k - 1),
        task.awaits() is Some,
        replies[k].answers(task.awaits()->0),
        task.step(replies[k], next, progress),
        0 < k < replies.len(),
        replies.len() == actions.len(),
        progress matches Progress::Perform(action) ==> actions[k] == Some(action),
    ensures
        job.has_mirrored(next, progress, channels, actions, replies, k),
{
    let ended = task.at(MirrorStage::Ended);
    let reply = replies[k];
    match task.stage {
        MirrorStage::Creating { src_channels, creating: before } => {
            let (creating, created) = choose|
                creating: CreateChannels,
                created: Progress<ChannelMap, MappingsError>,
            |
                #![trigger before.step(reply, creating, created)]
                {
                    &&& before.step(reply, creating, created)
                    &&& ended.after_creating(channels, creating, created, next, progress)
                };
            creating_goes_on(job, before, creating, created, actions, replies, k);
            mirroring_creates(
                job,
                ended,
                channels,
                creating,
                created,
                next,
                progress,
                actions,
                replies,
                k,
            );
        },
        MirrorStage::Registering { src_channels, made, registering: before } => {
            let (registering, registered) = choose|
                registering: RegisterMappings,
                registered: Progress<(), MappingsError>,
            |
                #![trigger before.step(reply, registering, registered)]
                {
                    &&& before.step(reply, registering, registered)
                    &&& ended.after_registering(
                        channels,
                        made,
                        registering,
                        registered,
                        next,
                        progress,
                    )
                };
            recorded_stays_recorded(job, before.records@, actions, replies, k);
            mirroring_registers(
                job,
                ended,
                channels,
                made,
                before,
                reply,
                registering,
                registered,
                next,
                progress,
                actions,
                replies,
                k,
            );
        },
        MirrorStage::Listing { src_channels, made } => {
            if let Reply::Channels(listed) = reply {
                let placed = listed@.filter(|channel: Channel| is_placed(made@, channel));
                let (before, mapping, mapped) = choose|
                    before: BuildChannelMap,
                    mapping: BuildChannelMap,
                    mapped: Progress<ChannelMap, MappingsError>,
                |
                    #![trigger before.step(Reply::Begin, mapping, mapped)]
                    {
                        &&& before.dest_channels@ == placed
                        &&& before.stage == (MapStage::Begin { pending: channels })
                        &&& before.step(Reply::Begin, mapping, mapped)
                        &&& ended.after_mapping(mapping, mapped, next, progress)
                    };
                assert forall|i: int| 0 <= i < channels@.len() implies channels@.contains(
                    #[trigger] channels@[i],
                ) by {}
                if let Progress::Perform(action) = mapped {
                    assert(actions[k] == Some(action));
                }
                building_continues(
                    before.at(MapStage::Ended),
                    channels@,
                    channels@,
                    Seq::empty(),
                    None,
                    mapping,
                    mapped,
                    actions,
                    replies,
                    k,
                );
                mirroring_maps(
                    job,
                    ended,
                    channels,
                    mapping,
                    mapped,
                    next,
                    progress,
                    actions,
                    replies,
                    k,
                );
            }
        },
        MirrorStage::Mapping { mapping: before } => {
            let (mapping, mapped) = choose|
                mapping: BuildChannelMap,
                mapped: Progress<ChannelMap, MappingsError>,
            |
                #![trigger before.step(reply, mapping, mapped)]
                {
                    &&& before.step(reply, mapping, mapped)
                    &&& ended.after_mapping(mapping, mapped, next, progress)
                };
            if let Progress::Perform(action) = mapped {
                assert(actions[k] == Some(action));
            }
            building_goes_on(before, channels@, mapping, mapped, actions, replies, k);
            mirroring_maps(
                job,
                ended,
                channels,
                mapping,
                mapped,
                next,
                progress,
                actions,
                replies,
                k,
            );
        },
        MirrorStage::Repositioning { repositioning: before } => {
            let (repositioning, repositioned) = choose|
                repositioning: RepositionChannels,
                repositioned: Progress<(), MappingsError>,
            |
                #![trigger before.step(reply, repositioning, repositioned)]
                {
                    &&& before.step(reply, repositioning, repositioned)
                    &&& ended.after_repositioning(repositioning, repositioned, next, progress)
                };
            mirroring_places(
                job,
                ended,
                channels,
                before,
                reply,
                repositioning,
                repositioned,
                next,
                progress,
                actions,
                replies,
                k,
            );
        },
        _ => {},
    }
}

} // verus!
