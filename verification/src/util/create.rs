//! Creating the mirrors of channels.
use crate::errors::MappingsError;
use crate::model::{
    copy_overwrites, overwrites_view, same_channel, Channel, ChannelType, Guild,
};
use crate::operation::{is_run, runs_end, Action, NewChannel, Progress, Reply, ReplyKind, Task};
use crate::text::copy_text;
use crate::validation::{
    channel_name, check_topic, is_channel_name, name_refusal, optional_topic_refusal, Refusal,
};
use vstd::prelude::*;

verus! {

// ---------------------------------------------------------------------------
// What mirrors what
// ---------------------------------------------------------------------------

/// Channels and what mirrors them. No channel stands in the list twice.
pub type ChannelMap = Vec<(Channel, Channel)>;

/// Whether no channel stands in the list twice.
pub open spec fn is_channel_map(map: Seq<(Channel, Channel)>) -> bool {
    forall|i: int, j: int|
        0 <= i < j < map.len() ==> !same_channel((#[trigger] map[i]).0, (#[trigger] map[j]).0)
}

/// Where a channel stands in a list, or the length of the list.
pub open spec fn channel_index(map: Seq<(Channel, Channel)>, channel: Channel) -> int
    decreases map.len(),
{
    if map.len() == 0 {
        0
    } else if same_channel(map[0].0, channel) {
        0
    } else {
        1 + channel_index(map.drop_first(), channel)
    }
}

/// The list in which `dest` mirrors `src`, and all else is as before.
pub open spec fn channel_added(map: Seq<(Channel, Channel)>, src: Channel, dest: Channel) -> Seq<
    (Channel, Channel),
> {
    let i = channel_index(map, src);
    if i < map.len() {
        map.update(i, (map[i].0, dest))
    } else {
        map.push((src, dest))
    }
}

/// A channel stands where its index says, and nowhere before.
pub proof fn channel_index_found(map: Seq<(Channel, Channel)>, channel: Channel)
    ensures
        0 <= channel_index(map, channel) <= map.len(),
        forall|i: int|
            0 <= i < channel_index(map, channel) ==> !same_channel(
                (#[trigger] map[i]).0,
                channel,
            ),
        channel_index(map, channel) < map.len() ==> same_channel(
            map[channel_index(map, channel)].0,
            channel,
        ),
    decreases map.len(),
{
    if map.len() > 0 && !same_channel(map[0].0, channel) {
        let rest = map.drop_first();
        channel_index_found(rest, channel);
        assert forall|i: int| 0 <= i < channel_index(map, channel) implies !same_channel(
            (#[trigger] map[i]).0,
            channel,
        ) by {
            if i > 0 {
                assert(rest[i - 1] == map[i]);
            }
        }
    }
}

/// Adding a pair keeps a map a map, gives the channel its mirror, and leaves the mirrors of
/// all other channels alone.
pub proof fn adding_a_channel(map: Seq<(Channel, Channel)>, src: Channel, dest: Channel)
    requires
        is_channel_map(map),
    ensures
        ({
            let added = channel_added(map, src, dest);
            &&& is_channel_map(added)
            &&& channel_index(added, src) < added.len()
            &&& added[channel_index(added, src)].1 == dest
            &&& map.len() <= added.len()
            &&& forall|i: int|
                0 <= i < map.len() && !same_channel((#[trigger] map[i]).0, src) ==> added[i]
                    == map[i]
        }),
{
    channel_index_found(map, src);
    let i = channel_index(map, src);
    let added = channel_added(map, src, dest);
    channel_index_found(added, src);
    let j = channel_index(added, src);
    if i < map.len() {
        assert(same_channel(added[i].0, src));
        assert(j <= i);
        if j < i {
            assert(added[j] == map[j]);
        }
    } else {
        assert(added[map.len() as int] == (src, dest));
        assert(j <= map.len());
        if j < map.len() {
            assert(added[j] == map[j]);
        }
    }
}

/// Lets `dest` mirror `src`.
pub fn add_channel(map: &mut ChannelMap, src: Channel, dest: Channel)
    ensures
        final(map)@ == channel_added(old(map)@, src, dest),
{
    let ghost before = map@;
    let mut i: usize = 0;
    proof {
        channel_index_found(before, src);
    }
    while i < map.len() && !map[i].0.same_as(&src)
        invariant
            i <= map@.len(),
            map@ == before,
            forall|j: int| 0 <= j < i ==> !same_channel((#[trigger] before[j]).0, src),
        decreases map@.len() - i,
    {
        i += 1;
    }
    proof {
        let k = channel_index(before, src);
        if k < i {
            assert(same_channel(before[k].0, src));
        } else if i < before.len() {
            assert(same_channel(before[i as int].0, src));
            assert(k == i);
        }
    }
    if i < map.len() {
        let (key, _) = map.remove(i);
        map.insert(i, (key, dest));
        assert(map@ =~= channel_added(before, src, dest));
    } else {
        map.push((src, dest));
    }
}

// ---------------------------------------------------------------------------
// What a channel becomes
// ---------------------------------------------------------------------------

/// The type of the channel that mirrors one of the given type. A guild that is no community
/// gets the closest type that it can hold. Some channels are not mirrored.
pub open spec fn mirrored_kind(kind: ChannelType, community: bool) -> Option<ChannelType> {
    match kind {
        ChannelType::GuildText | ChannelType::GuildVoice | ChannelType::GuildCategory => Some(
            kind,
        ),
        ChannelType::GuildAnnouncement | ChannelType::GuildForum => Some(
            if community {
                kind
            } else {
                ChannelType::GuildText
            },
        ),
        ChannelType::GuildStageVoice => Some(
            if community {
                kind
            } else {
                ChannelType::GuildVoice
            },
        ),
        ChannelType::GuildDirectory => if community {
            Some(kind)
        } else {
            None
        },
        _ => None,
    }
}

/// The type of the channel that mirrors one of the given type.
pub fn mirror_kind(kind: ChannelType, community: bool) -> (mirrored: Option<ChannelType>)
    ensures
        mirrored == mirrored_kind(kind, community),
{
    match kind {
        ChannelType::GuildText | ChannelType::GuildVoice | ChannelType::GuildCategory => Some(
            kind,
        ),
        ChannelType::GuildAnnouncement
        | ChannelType::GuildDirectory
        | ChannelType::GuildForum
        | ChannelType::GuildStageVoice => {
            if community {
                Some(kind)
            } else {
                match kind {
                    ChannelType::GuildStageVoice => Some(ChannelType::GuildVoice),
                    ChannelType::GuildDirectory => None,
                    _ => Some(ChannelType::GuildText),
                }
            }
        },
        _ => None,
    }
}

/// A community can hold whatever is mirrored as it is.
pub proof fn community_keeps_kinds(kind: ChannelType)
    ensures
        mirrored_kind(kind, true) is Some ==> mirrored_kind(kind, true) == Some(kind),
{
}

/// A guild that is no community gets only channels that every guild can hold.
pub proof fn replacement_kinds(kind: ChannelType)
    ensures
        match mirrored_kind(kind, false) {
            Some(mirrored) => mirrored is GuildText || mirrored is GuildVoice
                || mirrored is GuildCategory,
            None => true,
        },
{
}

/// The type of a mirror is mirrored as it is: mirroring again changes no type.
pub proof fn mirroring_settles(kind: ChannelType, community: bool)
    ensures
        match mirrored_kind(kind, community) {
            Some(mirrored) => mirrored_kind(mirrored, community) == Some(mirrored),
            None => true,
        },
{
}

/// Threads and private channels are never created here.
pub proof fn threads_are_not_created(kind: ChannelType, community: bool)
    requires
        kind.spec_is_thread() || kind is Private || kind is Group || kind is Unknown,
    ensures
        mirrored_kind(kind, community) is None,
{
}

/// The name of a channel, or what stands for it.
pub open spec fn name_of(channel: Channel) -> Seq<char> {
    match channel.name {
        Some(name) => name@,
        None => "no-name"@,
    }
}

/// Whether a request creates the mirror of a channel.
pub open spec fn creates_mirror(
    request: NewChannel,
    src: Channel,
    dest_guild_id: u64,
    kind: ChannelType,
) -> bool {
    &&& request.guild_id == dest_guild_id
    &&& request.name@ == name_of(src)
    &&& request.kind == kind
    &&& request.nsfw == src.nsfw
    &&& request.topic == src.topic
    &&& overwrites_view(request.permission_overwrites) == overwrites_view(
        src.permission_overwrites,
    )
}

/// How a channel is dealt with.
pub enum Creation {
    /// Its name or its topic is out of bounds.
    Refused(String),
    /// It is not mirrored.
    Skipped,
    Requested(NewChannel),
}

/// Whether a channel is passed over.
pub open spec fn is_skipped(src: Channel, community: bool) -> bool {
    is_channel_name(name_of(src)) && mirrored_kind(src.kind, community) is None
}

/// Why a channel cannot be mirrored: for its name, or else, unless it is passed over, for its
/// topic.
pub open spec fn channel_refusal(src: Channel, community: bool) -> Refusal {
    if !is_channel_name(name_of(src)) {
        name_refusal(name_of(src))
    } else if mirrored_kind(src.kind, community) is Some {
        optional_topic_refusal(src.topic)
    } else {
        None
    }
}

/// Decides how a channel is dealt with. Its name is looked at first, then its kind, and then its
/// topic.
pub fn create_channel(src: &Channel, dest_guild_id: u64, community: bool) -> (creation: Creation)
    ensures
        match creation {
            Creation::Refused(detail) => channel_refusal(*src, community) == Some(detail@),
            Creation::Skipped => is_skipped(*src, community),
            Creation::Requested(request) => {
                &&& channel_refusal(*src, community) is None
                &&& mirrored_kind(src.kind, community) is Some
                &&& creates_mirror(
                    request,
                    *src,
                    dest_guild_id,
                    mirrored_kind(src.kind, community)->0,
                )
            },
        },
{
    let name = match &src.name {
        Some(name) => name.clone(),
        None => "no-name".to_string(),
    };
    if let Err(detail) = channel_name(name.as_str()) {
        return Creation::Refused(detail);
    }
    match mirror_kind(src.kind, community) {
        Some(kind) => match check_topic(&src.topic) {
            Ok(()) => Creation::Requested(
                NewChannel {
                    guild_id: dest_guild_id,
                    name,
                    kind,
                    nsfw: src.nsfw,
                    topic: copy_text(&src.topic),
                    permission_overwrites: copy_overwrites(&src.permission_overwrites),
                },
            ),
            Err(detail) => Creation::Refused(detail),
        },
        None => Creation::Skipped,
    }
}

// ---------------------------------------------------------------------------
// The task
// ---------------------------------------------------------------------------

/// How far the creation has come.
pub enum CreateStage {
    Begin { pending: Vec<Channel> },
    Creating { src: Channel, pending: Vec<Channel>, made: ChannelMap },
    Waiting { pending: Vec<Channel>, made: ChannelMap },
    Ended,
}

/// Creates the mirrors of some channels, one after the other, and tells what mirrors what.
pub struct CreateChannels {
    pub dest_guild_id: u64,
    /// Whether the guild is a community.
    pub community: bool,
    pub stage: CreateStage,
}

/// Begins to create the mirrors of some channels.
pub fn create_channels(src_channels: Vec<Channel>, dest_guild: &Guild) -> (task: CreateChannels)
    ensures
        task.wf(),
        task == (CreateChannels {
            dest_guild_id: dest_guild.id,
            community: dest_guild.community(),
            stage: CreateStage::Begin { pending: src_channels },
        }),
{
    CreateChannels {
        dest_guild_id: dest_guild.id,
        community: dest_guild.is_community(),
        stage: CreateStage::Begin { pending: src_channels },
    }
}

/// What is left of some channels once those that are passed over at the front are gone.
pub open spec fn unskipped(pending: Seq<Channel>, community: bool) -> Seq<Channel>
    decreases pending.len(),
{
    if pending.len() > 0 && is_skipped(pending[0], community) {
        unskipped(pending.drop_first(), community)
    } else {
        pending
    }
}

impl CreateChannels {
    /// The same creation, at another stage.
    pub open spec fn at(self, stage: CreateStage) -> CreateChannels {
        CreateChannels { stage, ..self }
    }

    /// What follows once some mirrors were made: the next channel that is not passed over
    /// is dealt with, or the creation ends.
    pub open spec fn continues(
        self,
        pending: Seq<Channel>,
        made: Seq<(Channel, Channel)>,
        next: Self,
        progress: Progress<ChannelMap, MappingsError>,
    ) -> bool {
        let left = unskipped(pending, self.community);
        if left.len() == 0 {
            &&& next == self.at(CreateStage::Ended)
            &&& progress matches Progress::Done(map)
            &&& map@ == made
        } else if channel_refusal(left[0], self.community) is Some {
            &&& next == self.at(CreateStage::Ended)
            &&& progress matches Progress::Failed(MappingsError::ChannelCreateValidation(detail))
            &&& channel_refusal(left[0], self.community) == Some(detail@)
        } else {
            &&& next.dest_guild_id == self.dest_guild_id
            &&& next.community == self.community
            &&& next.stage matches CreateStage::Creating {
                src,
                pending: next_pending,
                made: next_made,
            }
            &&& src == left[0]
            &&& next_pending@ == left.drop_first()
            &&& next_made@ == made
            &&& progress matches Progress::Perform(Action::CreateChannel(request))
            &&& creates_mirror(
                request,
                src,
                self.dest_guild_id,
                mirrored_kind(src.kind, self.community)->0,
            )
        }
    }

    fn proceed(self, channels: Vec<Channel>, made: ChannelMap) -> (res: (
        Self,
        Progress<ChannelMap, MappingsError>,
    ))
        ensures
            self.continues(channels@, made@, res.0, res.1),
            res.0.wf(),
            res.1.leaves(res.0.awaits()),
    {
        let mut pending = channels;
        while pending.len() > 0
            invariant
                unskipped(pending@, self.community) == unskipped(channels@, self.community),
            decreases pending@.len(),
        {
            let ghost before = pending@;
            let src = pending.remove(0);
            assert(pending@ =~= before.drop_first());
            match create_channel(&src, self.dest_guild_id, self.community) {
                Creation::Refused(detail) => {
                    return (
                        CreateChannels { stage: CreateStage::Ended, ..self },
                        Progress::Failed(MappingsError::ChannelCreateValidation(detail)),
                    );
                },
                Creation::Skipped => {},
                Creation::Requested(request) => {
                    let stage = CreateStage::Creating { src, pending, made };
                    return (
                        CreateChannels { stage, ..self },
                        Progress::Perform(Action::CreateChannel(request)),
                    );
                },
            }
        }
        (CreateChannels { stage: CreateStage::Ended, ..self }, Progress::Done(made))
    }
}

impl Task for CreateChannels {
    type Output = ChannelMap;

    type Error = MappingsError;

    open spec fn wf(self) -> bool {
        true
    }

    open spec fn awaits(self) -> Option<ReplyKind> {
        match self.stage {
            CreateStage::Begin { .. } => Some(ReplyKind::Begin),
            CreateStage::Creating { .. } => Some(ReplyKind::Channel),
            CreateStage::Waiting { .. } => Some(ReplyKind::Done),
            CreateStage::Ended => None,
        }
    }

    open spec fn step(
        self,
        reply: Reply,
        next: Self,
        progress: Progress<ChannelMap, MappingsError>,
    ) -> bool {
        let ended = self.at(CreateStage::Ended);
        match (self.stage, reply) {
            (_, Reply::Failed(failure)) => next == ended && progress.fails(
                MappingsError::of(failure),
            ),
            (CreateStage::Begin { pending }, Reply::Begin) => ended.continues(
                pending@,
                Seq::empty(),
                next,
                progress,
            ),
            (CreateStage::Creating { src, pending, made }, Reply::Channel(dest)) => {
                &&& next.dest_guild_id == self.dest_guild_id
                &&& next.community == self.community
                &&& next.stage matches CreateStage::Waiting {
                    pending: next_pending,
                    made: next_made,
                }
                &&& next_pending == pending
                &&& next_made@ == channel_added(made@, src, dest)
                &&& progress.performs(Action::Sleep(1))
            },
            (CreateStage::Waiting { pending, made }, Reply::Done) => ended.continues(
                pending@,
                made@,
                next,
                progress,
            ),
            _ => false,
        }
    }

    fn resume(self, reply: Reply) -> (res: (Self, Progress<ChannelMap, MappingsError>)) {
        let CreateChannels { dest_guild_id, community, stage } = self;
        let ended = CreateChannels { dest_guild_id, community, stage: CreateStage::Ended };
        match (stage, reply) {
            (_, Reply::Failed(failure)) => (
                ended,
                Progress::Failed(MappingsError::from_failure(failure)),
            ),
            (CreateStage::Begin { pending }, Reply::Begin) => ended.proceed(pending, Vec::new()),
            (CreateStage::Creating { src, pending, made }, Reply::Channel(dest)) => {
                let mut made = made;
                add_channel(&mut made, src, dest);
                let stage = CreateStage::Waiting { pending, made };
                (CreateChannels { stage, ..ended }, Progress::Perform(Action::Sleep(1)))
            },
            (CreateStage::Waiting { pending, made }, Reply::Done) => ended.proceed(pending, made),
            _ => vstd::pervasive::unreached(),
        }
    }
}

/// What was made so far.
pub open spec fn made_so_far(stage: CreateStage) -> Seq<(Channel, Channel)> {
    match stage {
        CreateStage::Creating { made, .. } => made@,
        CreateStage::Waiting { made, .. } => made@,
        _ => Seq::empty(),
    }
}

/// At no time does a channel stand twice among those that were made, nor in the result.
pub proof fn made_channels_stay_a_map(
    task: CreateChannels,
    reply: Reply,
    next: CreateChannels,
    progress: Progress<ChannelMap, MappingsError>,
)
    requires
        is_channel_map(made_so_far(task.stage)),
        task.step(reply, next, progress),
    ensures
        is_channel_map(made_so_far(next.stage)),
        progress matches Progress::Done(map) ==> is_channel_map(map@) && map@ == made_so_far(
            task.stage,
        ),
{
    if let (CreateStage::Creating { src, pending: _, made }, Reply::Channel(dest)) = (
        task.stage,
        reply,
    ) {
        adding_a_channel(made@, src, dest);
    }
}

/// A channel is created at the beginning or after a pause, never right after another one.
pub proof fn creations_are_spaced(
    task: CreateChannels,
    reply: Reply,
    next: CreateChannels,
    progress: Progress<ChannelMap, MappingsError>,
    request: NewChannel,
)
    requires
        task.step(reply, next, progress),
        progress.performs(Action::CreateChannel(request)),
    ensures
        task.stage is Begin || task.stage is Waiting,
{
}

// ---------------------------------------------------------------------------
// What is made in the end
// ---------------------------------------------------------------------------

/// Those of some channels that are not passed over, in their order.
pub open spec fn creatable_channels(channels: Seq<Channel>, community: bool) -> Seq<Channel> {
    channels.filter(|channel: Channel| !is_skipped(channel, community))
}

/// The list in which each of the channels that were created mirrors the one that it was created
/// for.
pub open spec fn mirrors_made(channels: Seq<Channel>, created: Seq<Channel>) -> Seq<(Channel, Channel)>
    decreases created.len(),
{
    if created.len() == 0 {
        Seq::empty()
    } else {
        channel_added(
            mirrors_made(channels, created.drop_last()),
            channels[created.len() - 1],
            created.last(),
        )
    }
}

/// Skipping what is passed over at the front leaves what is not.
proof fn unskipped_keeps(pending: Seq<Channel>, community: bool)
    ensures
        ({
            let left = unskipped(pending, community);
            &&& creatable_channels(pending, community) == if left.len() == 0 {
                Seq::empty()
            } else {
                seq![left[0]] + creatable_channels(left.drop_first(), community)
            }
            &&& left.len() > 0 ==> !is_skipped(left[0], community)
        }),
    decreases pending.len(),
{
    let wanted = |channel: Channel| !is_skipped(channel, community);
    if pending.len() == 0 {
        reveal(Seq::filter);
    } else {
        let first = seq![pending[0]];
        let rest = pending.drop_first();
        assert(first + rest =~= pending);
        Seq::filter_distributes_over_add(first, rest, wanted);
        assert(first.filter(wanted) == if wanted(pending[0]) {
            first
        } else {
            Seq::empty()
        }) by {
            reveal(Seq::filter);
            assert(first.drop_last() =~= Seq::empty());
            assert(first.drop_last().filter(wanted) =~= Seq::empty());
        }
        if !wanted(pending[0]) {
            unskipped_keeps(rest, community);
            assert(creatable_channels(pending, community) =~= creatable_channels(rest, community));
        }
    }
}

impl CreateChannels {
    /// Whether this is a creation of mirrors for some channels that waits for the answer to an
    /// operation, and what was created so far.
    pub open spec fn has_come_to(
        self,
        channels: Seq<Channel>,
        created: Seq<Channel>,
        asked: Action,
    ) -> bool {
        let wanted = creatable_channels(channels, self.community);
        let n = created.len() as int;
        match self.stage {
            CreateStage::Creating { src, pending, made } => {
                &&& asks_for_channel(asked, src, self)
                &&& n < wanted.len()
                &&& wanted.skip(n) == seq![src] + creatable_channels(pending@, self.community)
                &&& made@ == mirrors_made(wanted, created)
            },
            CreateStage::Waiting { pending, made } => {
                &&& asked == Action::Sleep(1)
                &&& n <= wanted.len()
                &&& wanted.skip(n) == creatable_channels(pending@, self.community)
                &&& made@ == mirrors_made(wanted, created)
            },
            _ => false,
        }
    }
}

/// Whether an operation creates the mirror of a channel.
pub open spec fn asks_for_channel(asked: Action, src: Channel, task: CreateChannels) -> bool {
    &&& asked matches Action::CreateChannel(request)
    &&& mirrored_kind(src.kind, task.community) is Some
    &&& creates_mirror(
        request,
        src,
        task.dest_guild_id,
        mirrored_kind(src.kind, task.community)->0,
    )
}

/// What a creation has come to while some channels are left.
pub(crate) proof fn creating_channels_continues(
    task: CreateChannels,
    channels: Seq<Channel>,
    created: Seq<Channel>,
    pending: Seq<Channel>,
    next: CreateChannels,
    progress: Progress<ChannelMap, MappingsError>,
)
    requires
        created.len() <= creatable_channels(channels, task.community).len(),
        creatable_channels(channels, task.community).skip(created.len() as int) == creatable_channels(
            pending,
            task.community,
        ),
        task.continues(
            pending,
            mirrors_made(creatable_channels(channels, task.community), created),
            next,
            progress,
        ),
    ensures
        next.dest_guild_id == task.dest_guild_id,
        next.community == task.community,
        match progress {
            Progress::Perform(action) => next.has_come_to(channels, created, action),
            Progress::Done(map) => {
                &&& created.len() == creatable_channels(channels, task.community).len()
                &&& map@ == mirrors_made(creatable_channels(channels, task.community), created)
            },
            Progress::Failed(_) => creatable_channels(channels, task.community).len() > created.len(),
        },
{
    unskipped_keeps(pending, task.community);
    let wanted = creatable_channels(channels, task.community);
    let left = unskipped(pending, task.community);
    assert(wanted.skip(created.len() as int).len() == wanted.len() - created.len());
    if left.len() > 0 {
        assert(wanted.skip(created.len() as int).len() > 0);
    }
}

/// One step of a creation.
pub(crate) proof fn creating_channels_goes_on(
    task: CreateChannels,
    channels: Seq<Channel>,
    created: Seq<Channel>,
    asked: Action,
    reply: Reply,
    next: CreateChannels,
    progress: Progress<ChannelMap, MappingsError>,
)
    requires
        task.has_come_to(channels, created, asked),
        !(reply is Failed),
        task.awaits() is Some,
        reply.answers(task.awaits()->0),
        task.step(reply, next, progress),
    ensures
        next.dest_guild_id == task.dest_guild_id,
        next.community == task.community,
        ({
            let created = if task.stage is Creating {
                created.push(reply->Channel_0)
            } else {
                created
            };
            match progress {
                Progress::Perform(action) => next.has_come_to(channels, created, action),
                Progress::Done(map) => {
                    &&& task.stage is Waiting
                    &&& created.len() == creatable_channels(channels, task.community).len()
                    &&& map@ == mirrors_made(creatable_channels(channels, task.community), created)
                },
                Progress::Failed(_) => creatable_channels(channels, task.community).len() > created.len(),
            }
        }),
{
    let wanted = creatable_channels(channels, task.community);
    let n = created.len() as int;
    match task.stage {
        CreateStage::Creating { src, pending, made } => {
            assert(wanted.skip(n)[0] == src);
            let rest = creatable_channels(pending@, task.community);
            assert((seq![src] + rest).drop_first() =~= rest);
            assert(wanted.skip(n).drop_first() =~= wanted.skip(n + 1));
            assert(created.push(reply->Channel_0).drop_last() =~= created);
        },
        CreateStage::Waiting { pending, made } => {
            creating_channels_continues(
                task.at(CreateStage::Ended),
                channels,
                created,
                pending@,
                next,
                progress,
            );
        },
        _ => {},
    }
}

/// The first channels that were created in a run, in their order.
pub open spec fn created_channels(replies: Seq<Reply>, n: int) -> Seq<Channel> {
    Seq::new(n as nat, |k: int| replies[2 * k + 1]->Channel_0)
}

/// Where nothing fails, a mirror is created for every channel that is not passed over, each once,
/// in order and with a pause after it, and the result tells which mirrors which.
pub proof fn channels_are_created(
    tasks: Seq<CreateChannels>,
    replies: Seq<Reply>,
    progress: Seq<Progress<ChannelMap, MappingsError>>,
    channels: Vec<Channel>,
    k: int,
)
    requires
        is_run(tasks, replies, progress),
        tasks[0].stage == (CreateStage::Begin { pending: channels }),
        replies.len() > 0,
        progress.last() is Done,
        0 <= k <= creatable_channels(channels@, tasks[0].community).len(),
    ensures
        ({
            let wanted = creatable_channels(channels@, tasks[0].community);
            &&& replies.len() == 2 * wanted.len() + 1
            &&& k < wanted.len() ==> {
                &&& progress[2 * k] matches Progress::Perform(asked)
                &&& asks_for_channel(asked, wanted[k], tasks[0])
                &&& replies[2 * k + 1] is Channel
                &&& progress[2 * k + 1].performs(Action::Sleep(1))
            }
            &&& progress.last()->Done_0@ == mirrors_made(
                wanted,
                created_channels(replies, wanted.len() as int),
            )
        }),
{
    let wanted = creatable_channels(channels@, tasks[0].community);
    channels_are_created_up_to(tasks, replies, progress, channels, replies.len() - 1);
    if k < wanted.len() {
        channels_are_created_up_to(tasks, replies, progress, channels, 2 * k);
        channels_are_created_up_to(tasks, replies, progress, channels, 2 * k + 1);
        let made = replies[2 * k + 1];
    }
}

/// Where no channel is left to be mirrored nothing is created.
pub(crate) proof fn nothing_is_created_for_no_channels(
    task: CreateChannels,
    channels: Vec<Channel>,
    next: CreateChannels,
    progress: Progress<ChannelMap, MappingsError>,
)
    requires
        task.stage == (CreateStage::Begin { pending: channels }),
        creatable_channels(channels@, task.community).len() == 0,
        task.step(Reply::Begin, next, progress),
    ensures
        progress matches Progress::Done(map) && map@.len() == 0,
{
    unskipped_keeps(channels@, task.community);
}

proof fn channels_are_created_up_to(
    tasks: Seq<CreateChannels>,
    replies: Seq<Reply>,
    progress: Seq<Progress<ChannelMap, MappingsError>>,
    channels: Vec<Channel>,
    k: int,
)
    requires
        is_run(tasks, replies, progress),
        tasks[0].stage == (CreateStage::Begin { pending: channels }),
        replies.len() > 0,
        progress.last() is Done,
        0 <= k,
        k < replies.len() || k < 2 * creatable_channels(channels@, tasks[0].community).len(),
    ensures
        k < replies.len(),
        tasks[k + 1].dest_guild_id == tasks[0].dest_guild_id,
        tasks[k + 1].community == tasks[0].community,
        ({
            let created = created_channels(replies, (k + 1) / 2);
            let wanted = creatable_channels(channels@, tasks[0].community);
            match progress[k] {
                Progress::Perform(action) => {
                    &&& tasks[k + 1].has_come_to(channels@, created, action)
                    &&& tasks[k + 1].stage is Creating <==> k % 2 == 0
                    &&& k % 2 == 0 ==> asks_for_channel(action, wanted[k / 2], tasks[0])
                },
                Progress::Done(map) => {
                    &&& k == replies.len() - 1
                    &&& k == 2 * wanted.len()
                    &&& map@ == mirrors_made(wanted, created)
                },
                Progress::Failed(_) => false,
            }
        }),
    decreases k,
{
    let wanted = creatable_channels(channels@, tasks[0].community);
    let created = created_channels(replies, (k + 1) / 2);
    if k == 0 {
        let reply = replies[0];
        assert(created =~= Seq::empty());
        assert(wanted.skip(0) =~= wanted);
        creating_channels_continues(
            tasks[0].at(CreateStage::Ended),
            channels@,
            created,
            channels@,
            tasks[1],
            progress[0],
        );
    } else {
        channels_are_created_up_to(tasks, replies, progress, channels, k - 1);
        assert(k < replies.len()) by {
            if k == replies.len() {
                assert(progress[k - 1] == progress.last());
            }
        }
        let reply = replies[k];
        if !(progress[k - 1] is Perform) {
            runs_end(tasks, replies, progress, k - 1);
        }
        if reply is Failed {
            runs_end(tasks, replies, progress, k);
        }
        let before = created_channels(replies, k / 2);
        if k % 2 == 1 {
            assert((k - 1) / 2 == k / 2 && 2 * (k / 2) + 1 == k);
            assert(created =~= before.push(reply->Channel_0));
        } else {
            assert(created =~= before);
        }
        creating_channels_goes_on(
            tasks[k],
            channels@,
            before,
            progress[k - 1]->Perform_0,
            reply,
            tasks[k + 1],
            progress[k],
        );
    }
    if !(progress[k] is Perform) {
        runs_end(tasks, replies, progress, k);
    }
    if progress[k] is Perform && k % 2 == 0 {
        assert(wanted.skip(k / 2)[0] == wanted[k / 2]);
    }
}

/// The list of mirrors leads from the channels that mirrors were created for, and from nothing
/// else.
pub(crate) proof fn mirrors_made_lead_from(channels: Seq<Channel>, created: Seq<Channel>)
    requires
        created.len() <= channels.len(),
    ensures
        forall|i: int|
            0 <= i < created.len() ==> exists|j: int|
                0 <= j < mirrors_made(channels, created).len() && (
                #[trigger] mirrors_made(channels, created)[j]).0.id == (#[trigger] channels[i]).id,
        forall|j: int|
            0 <= j < mirrors_made(channels, created).len() ==> channels.contains(
                (#[trigger] mirrors_made(channels, created)[j]).0,
            ),
    decreases created.len(),
{
    if created.len() > 0 {
        let before = mirrors_made(channels, created.drop_last());
        let map = mirrors_made(channels, created);
        let src = channels[created.len() - 1];
        mirrors_made_lead_from(channels, created.drop_last());
        channel_index_found(before, src);
        let at = channel_index(before, src);
        assert(map[at].0.id == src.id);
        assert forall|j: int| 0 <= j < before.len() implies map[j].0 == (
        #[trigger] before[j]).0 by {}
        assert forall|j: int| 0 <= j < map.len() implies channels.contains(
            (#[trigger] map[j]).0,
        ) by {
            if j < before.len() {
                assert(before[j].0 == map[j].0);
            } else {
                assert(map[j].0 == src);
            }
        }
        assert forall|i: int| 0 <= i < created.len() implies exists|j: int|
            0 <= j < map.len() && (#[trigger] map[j]).0.id == (#[trigger] channels[i]).id by {
            if i < created.len() - 1 {
                let j = choose|j: int|
                    0 <= j < before.len() && (#[trigger] before[j]).0.id == channels[i].id;
                assert(map[j].0 == before[j].0);
            }
        }
    }
}

} // verus!
