//! Mirroring channels from their creation to their place.
use crate::errors::{Failure, MappingsError};
use crate::model::{same_channel, Channel, ChannelType, Guild};
use crate::operation::{Action, Progress, Reply, ReplyKind, Task};
use crate::util::channel_map::{build_channel_map, BuildChannelMap, MapStage};
use crate::util::create::{create_channels, ChannelMap, CreateChannels, CreateStage};
use crate::util::register::{register_channels, RegisterMappings};
use crate::util::reposition::{reposition_channels, RepositionChannels};
use vstd::prelude::*;

verus! {

/// Whether a channel is one of the mirrors that were just made.
pub open spec fn is_made(made: Seq<(Channel, Channel)>, channel: Channel) -> bool {
    exists|i: int| 0 <= i < made.len() && same_channel((#[trigger] made[i]).1, channel)
}

/// Whether a channel of the mirroring guild is to be put in its place: those that were just
/// made are, and categories, for what they take in.
pub open spec fn is_placed(made: Seq<(Channel, Channel)>, channel: Channel) -> bool {
    is_made(made, channel) || channel.kind is GuildCategory
}

/// Whether a channel is one of the mirrors that were just made.
fn was_made(made: &ChannelMap, channel: &Channel) -> (res: bool)
    ensures
        res == is_made(made@, *channel),
{
    for i in 0..made.len()
        invariant
            forall|j: int| 0 <= j < i ==> !same_channel((#[trigger] made@[j]).1, *channel),
    {
        if made[i].1.same_as(channel) {
            assert(same_channel(made@[i as int].1, *channel));
            return true;
        }
    }
    false
}

/// The channels of the mirroring guild that are to be put in their place, in their order.
pub fn placed_channels(listed: Vec<Channel>, made: &ChannelMap) -> (placed: Vec<Channel>)
    ensures
        placed@ == listed@.filter(|channel: Channel| is_placed(made@, channel)),
{
    let ghost to_place = |channel: Channel| is_placed(made@, channel);
    let mut placed: Vec<Channel> = Vec::new();
    let mut pending = listed;
    let ghost mut done: int = 0;
    proof {
        reveal(Seq::filter);
        assert(listed@.take(0) =~= Seq::<Channel>::empty());
    }
    while pending.len() > 0
        invariant
            to_place == (|channel: Channel| is_placed(made@, channel)),
            0 <= done <= listed@.len(),
            pending@ == listed@.skip(done),
            placed@ == listed@.take(done).filter(to_place),
        decreases pending@.len(),
    {
        let channel = pending.remove(0);
        proof {
            reveal(Seq::filter);
            assert(pending@ =~= listed@.skip(done + 1));
            assert(listed@.take(done + 1).drop_last() =~= listed@.take(done));
            assert(listed@.take(done + 1).last() == channel);
            done = done + 1;
        }
        if was_made(made, &channel) || channel.kind == ChannelType::GuildCategory {
            placed.push(channel);
        }
    }
    assert(listed@.take(done) =~= listed@);
    placed
}

/// What mirroring channels can fail with.
pub enum MirrorError {
    /// The channels of the mirroring guild could not be listed.
    Listing(Failure),
    Mapping(MappingsError),
}

/// How far the mirroring has come.
pub enum MirrorStage {
    Begin { new_channels: Vec<Channel>, src_channels: Vec<Channel> },
    Creating { src_channels: Vec<Channel>, creating: CreateChannels },
    Registering { src_channels: Vec<Channel>, made: ChannelMap, registering: RegisterMappings },
    Listing { src_channels: Vec<Channel>, made: ChannelMap },
    Mapping { mapping: BuildChannelMap },
    Repositioning { repositioning: RepositionChannels },
    Ended,
}

/// Creates the mirrors of new channels, registers them, and puts them where they belong
/// among the mirrors of all channels of the guild.
pub struct MirrorChannels {
    pub src_guild_id: u64,
    pub dest_guild: Guild,
    pub stage: MirrorStage,
}

/// Begins to mirror new channels, which are among all channels of a guild.
pub fn mirror_channels(
    src_guild_id: u64,
    dest_guild: Guild,
    new_channels: Vec<Channel>,
    src_channels: Vec<Channel>,
) -> (task: MirrorChannels)
    ensures
        task.wf(),
        task == (MirrorChannels {
            src_guild_id,
            dest_guild,
            stage: MirrorStage::Begin { new_channels, src_channels },
        }),
{
    let stage = MirrorStage::Begin { new_channels, src_channels };
    MirrorChannels { src_guild_id, dest_guild, stage }
}

impl MirrorChannels {
    /// The same mirroring, at another stage.
    pub open spec fn at(self, stage: MirrorStage) -> MirrorChannels {
        MirrorChannels { stage, ..self }
    }

    /// Whether the mirroring fails here.
    pub open spec fn fails_with(
        self,
        error: MirrorError,
        next: Self,
        progress: Progress<(), MirrorError>,
    ) -> bool {
        next == self.at(MirrorStage::Ended) && progress.fails(error)
    }

    /// What follows from a step of the creation.
    pub open spec fn after_creating(
        self,
        src_channels: Vec<Channel>,
        creating: CreateChannels,
        created: Progress<ChannelMap, MappingsError>,
        next: Self,
        progress: Progress<(), MirrorError>,
    ) -> bool {
        match created {
            Progress::Perform(action) => {
                &&& next == self.at(MirrorStage::Creating { src_channels, creating })
                &&& progress.performs(action)
            },
            Progress::Failed(error) => self.fails_with(MirrorError::Mapping(error), next, progress),
            Progress::Done(made) => exists|
                task: RegisterMappings,
                registering: RegisterMappings,
                registered,
            |
                #![trigger task.step(Reply::Begin, registering, registered)]
                {
                    &&& task.registers_channels(made@, (self.src_guild_id, self.dest_guild.id))
                    &&& task.step(Reply::Begin, registering, registered)
                    &&& self.after_registering(
                        src_channels,
                        made,
                        registering,
                        registered,
                        next,
                        progress,
                    )
                },
        }
    }

    /// What follows from a step of the registration.
    pub open spec fn after_registering(
        self,
        src_channels: Vec<Channel>,
        made: ChannelMap,
        registering: RegisterMappings,
        registered: Progress<(), MappingsError>,
        next: Self,
        progress: Progress<(), MirrorError>,
    ) -> bool {
        match registered {
            Progress::Perform(action) => {
                &&& next == self.at(MirrorStage::Registering { src_channels, made, registering })
                &&& progress.performs(action)
            },
            Progress::Failed(error) => self.fails_with(MirrorError::Mapping(error), next, progress),
            Progress::Done(()) => {
                &&& next == self.at(MirrorStage::Listing { src_channels, made })
                &&& progress.performs(Action::GetGuildChannels(self.dest_guild.id))
            },
        }
    }

    /// What follows once the channels of the mirroring guild were listed.
    pub open spec fn after_listing(
        self,
        src_channels: Vec<Channel>,
        placed: Seq<Channel>,
        next: Self,
        progress: Progress<(), MirrorError>,
    ) -> bool {
        exists|task: BuildChannelMap, mapping: BuildChannelMap, mapped|
            #![trigger task.step(Reply::Begin, mapping, mapped)]
            {
                &&& task.dest_channels@ == placed
                &&& task.stage == (MapStage::Begin { pending: src_channels })
                &&& task.step(Reply::Begin, mapping, mapped)
                &&& self.after_mapping(mapping, mapped, next, progress)
            }
    }

    /// What follows from a step of finding out which channels mirror which.
    pub open spec fn after_mapping(
        self,
        mapping: BuildChannelMap,
        mapped: Progress<ChannelMap, MappingsError>,
        next: Self,
        progress: Progress<(), MirrorError>,
    ) -> bool {
        match mapped {
            Progress::Perform(action) => {
                &&& next == self.at(MirrorStage::Mapping { mapping })
                &&& progress.performs(action)
            },
            Progress::Failed(error) => self.fails_with(MirrorError::Mapping(error), next, progress),
            Progress::Done(map) => exists|
                task: RepositionChannels,
                repositioning: RepositionChannels,
                repositioned,
            |
                #![trigger task.step(Reply::Begin, repositioning, repositioned)]
                {
                    &&& task.starts(self.dest_guild.id, map@)
                    &&& task.step(Reply::Begin, repositioning, repositioned)
                    &&& self.after_repositioning(repositioning, repositioned, next, progress)
                },
        }
    }

    /// What follows from a step of the putting in place.
    pub open spec fn after_repositioning(
        self,
        repositioning: RepositionChannels,
        repositioned: Progress<(), MappingsError>,
        next: Self,
        progress: Progress<(), MirrorError>,
    ) -> bool {
        match repositioned {
            Progress::Perform(action) => {
                &&& next == self.at(MirrorStage::Repositioning { repositioning })
                &&& progress.performs(action)
            },
            Progress::Failed(error) => self.fails_with(MirrorError::Mapping(error), next, progress),
            Progress::Done(()) => next == self.at(MirrorStage::Ended) && progress.yields(()),
        }
    }

    fn fail(self, error: MirrorError) -> (res: (Self, Progress<(), MirrorError>))
        ensures
            self.fails_with(error, res.0, res.1),
            res.0.wf(),
            res.1.leaves(res.0.awaits()),
    {
        (MirrorChannels { stage: MirrorStage::Ended, ..self }, Progress::Failed(error))
    }

    fn continue_repositioning(
        self,
        step: (RepositionChannels, Progress<(), MappingsError>),
    ) -> (res: (Self, Progress<(), MirrorError>))
        requires
            step.0.wf(),
            step.1.leaves(step.0.awaits()),
        ensures
            self.after_repositioning(step.0, step.1, res.0, res.1),
            res.0.wf(),
            res.1.leaves(res.0.awaits()),
    {
        let (repositioning, repositioned) = step;
        match repositioned {
            Progress::Perform(action) => (
                MirrorChannels { stage: MirrorStage::Repositioning { repositioning }, ..self },
                Progress::Perform(action),
            ),
            Progress::Failed(error) => self.fail(MirrorError::Mapping(error)),
            Progress::Done(()) => (
                MirrorChannels { stage: MirrorStage::Ended, ..self },
                Progress::Done(()),
            ),
        }
    }

    fn continue_mapping(
        self,
        step: (BuildChannelMap, Progress<ChannelMap, MappingsError>),
    ) -> (res: (Self, Progress<(), MirrorError>))
        requires
            step.0.wf(),
            step.1.leaves(step.0.awaits()),
        ensures
            self.after_mapping(step.0, step.1, res.0, res.1),
            res.0.wf(),
            res.1.leaves(res.0.awaits()),
    {
        let (mapping, mapped) = step;
        match mapped {
            Progress::Perform(action) => (
                MirrorChannels { stage: MirrorStage::Mapping { mapping }, ..self },
                Progress::Perform(action),
            ),
            Progress::Failed(error) => self.fail(MirrorError::Mapping(error)),
            Progress::Done(map) => {
                let task = reposition_channels(self.dest_guild.id, &map);
                let step = task.resume(Reply::Begin);
                self.continue_repositioning(step)
            },
        }
    }

    fn continue_registering(
        self,
        src_channels: Vec<Channel>,
        made: ChannelMap,
        step: (RegisterMappings, Progress<(), MappingsError>),
    ) -> (res: (Self, Progress<(), MirrorError>))
        requires
            step.0.wf(),
            step.1.leaves(step.0.awaits()),
        ensures
            self.after_registering(src_channels, made, step.0, step.1, res.0, res.1),
            res.0.wf(),
            res.1.leaves(res.0.awaits()),
    {
        let (registering, registered) = step;
        match registered {
            Progress::Perform(action) => {
                let stage = MirrorStage::Registering { src_channels, made, registering };
                (MirrorChannels { stage, ..self }, Progress::Perform(action))
            },
            Progress::Failed(error) => self.fail(MirrorError::Mapping(error)),
            Progress::Done(()) => {
                let action = Action::GetGuildChannels(self.dest_guild.id);
                let stage = MirrorStage::Listing { src_channels, made };
                (MirrorChannels { stage, ..self }, Progress::Perform(action))
            },
        }
    }

    fn continue_creating(
        self,
        src_channels: Vec<Channel>,
        step: (CreateChannels, Progress<ChannelMap, MappingsError>),
    ) -> (res: (Self, Progress<(), MirrorError>))
        requires
            step.0.wf(),
            step.1.leaves(step.0.awaits()),
        ensures
            self.after_creating(src_channels, step.0, step.1, res.0, res.1),
            res.0.wf(),
            res.1.leaves(res.0.awaits()),
    {
        let (creating, created) = step;
        match created {
            Progress::Perform(action) => {
                let stage = MirrorStage::Creating { src_channels, creating };
                (MirrorChannels { stage, ..self }, Progress::Perform(action))
            },
            Progress::Failed(error) => self.fail(MirrorError::Mapping(error)),
            Progress::Done(made) => {
                let task = register_channels(&made, (self.src_guild_id, self.dest_guild.id));
                let step = task.resume(Reply::Begin);
                self.continue_registering(src_channels, made, step)
            },
        }
    }
}

impl Task for MirrorChannels {
    type Output = ();

    type Error = MirrorError;

    open spec fn wf(self) -> bool {
        match self.stage {
            MirrorStage::Creating { creating, .. } => creating.wf(),
            MirrorStage::Registering { registering, .. } => registering.wf(),
            MirrorStage::Mapping { mapping } => mapping.wf(),
            MirrorStage::Repositioning { repositioning } => repositioning.wf(),
            _ => true,
        }
    }

    open spec fn awaits(self) -> Option<ReplyKind> {
        match self.stage {
            MirrorStage::Begin { .. } => Some(ReplyKind::Begin),
            MirrorStage::Creating { creating, .. } => creating.awaits(),
            MirrorStage::Registering { registering, .. } => registering.awaits(),
            MirrorStage::Listing { .. } => Some(ReplyKind::Channels),
            MirrorStage::Mapping { mapping } => mapping.awaits(),
            MirrorStage::Repositioning { repositioning } => repositioning.awaits(),
            MirrorStage::Ended => None,
        }
    }

    open spec fn step(
        self,
        reply: Reply,
        next: Self,
        progress: Progress<(), MirrorError>,
    ) -> bool {
        let ended = self.at(MirrorStage::Ended);
        match (self.stage, reply) {
            (MirrorStage::Begin { new_channels, src_channels }, Reply::Begin) => exists|
                creating: CreateChannels,
                created,
            |
                #![trigger ended.after_creating(src_channels, creating, created, next, progress)]
                {
                    &&& (CreateChannels {
                        dest_guild_id: self.dest_guild.id,
                        community: self.dest_guild.community(),
                        stage: CreateStage::Begin { pending: new_channels },
                    }).step(Reply::Begin, creating, created)
                    &&& ended.after_creating(src_channels, creating, created, next, progress)
                },
            (MirrorStage::Creating { src_channels, creating: task }, _) => exists|
                creating: CreateChannels,
                created,
            |
                #![trigger task.step(reply, creating, created)]
                {
                    &&& task.step(reply, creating, created)
                    &&& ended.after_creating(src_channels, creating, created, next, progress)
                },
            (MirrorStage::Registering { src_channels, made, registering: task }, _) => exists|
                registering: RegisterMappings,
                registered,
            |
                #![trigger task.step(reply, registering, registered)]
                {
                    &&& task.step(reply, registering, registered)
                    &&& ended.after_registering(
                        src_channels,
                        made,
                        registering,
                        registered,
                        next,
                        progress,
                    )
                },
            (
                MirrorStage::Listing { src_channels, made },
                Reply::Channels(listed),
            ) => ended.after_listing(
                src_channels,
                listed@.filter(|channel: Channel| is_placed(made@, channel)),
                next,
                progress,
            ),
            (MirrorStage::Listing { .. }, Reply::Failed(failure)) => ended.fails_with(
                MirrorError::Listing(failure),
                next,
                progress,
            ),
            (MirrorStage::Mapping { mapping: task }, _) => exists|mapping: BuildChannelMap, mapped|
                #![trigger task.step(reply, mapping, mapped)]
                {
                    &&& task.step(reply, mapping, mapped)
                    &&& ended.after_mapping(mapping, mapped, next, progress)
                },
            (MirrorStage::Repositioning { repositioning: task }, _) => exists|
                repositioning: RepositionChannels,
                repositioned,
            |
                #![trigger task.step(reply, repositioning, repositioned)]
                {
                    &&& task.step(reply, repositioning, repositioned)
                    &&& ended.after_repositioning(repositioning, repositioned, next, progress)
                },
            _ => false,
        }
    }

    fn resume(self, reply: Reply) -> (res: (Self, Progress<(), MirrorError>)) {
        assert(self.wf());
        let MirrorChannels { src_guild_id, dest_guild, stage } = self;
        let ended = MirrorChannels { src_guild_id, dest_guild, stage: MirrorStage::Ended };
        match (stage, reply) {
            (MirrorStage::Begin { new_channels, src_channels }, Reply::Begin) => {
                let task = create_channels(new_channels, &ended.dest_guild);
                let step = task.resume(Reply::Begin);
                ended.continue_creating(src_channels, step)
            },
            (MirrorStage::Creating { src_channels, creating }, reply) => {
                let step = creating.resume(reply);
                ended.continue_creating(src_channels, step)
            },
            (MirrorStage::Registering { src_channels, made, registering }, reply) => {
                let step = registering.resume(reply);
                ended.continue_registering(src_channels, made, step)
            },
            (MirrorStage::Listing { src_channels, made }, Reply::Channels(listed)) => {
                let placed = placed_channels(listed, &made);
                let task = build_channel_map(src_channels, placed);
                let step = task.resume(Reply::Begin);
                ended.continue_mapping(step)
            },
            (MirrorStage::Listing { .. }, Reply::Failed(failure)) => ended.fail(
                MirrorError::Listing(failure),
            ),
            (MirrorStage::Mapping { mapping }, reply) => {
                let step = mapping.resume(reply);
                ended.continue_mapping(step)
            },
            (MirrorStage::Repositioning { repositioning }, reply) => {
                let step = repositioning.resume(reply);
                ended.continue_repositioning(step)
            },
            _ => vstd::pervasive::unreached(),
        }
    }
}

/// Where listing channels fails, it fails with something that setting guilds up can meet.
pub proof fn listing_fails_plainly(
    task: MirrorChannels,
    reply: Reply,
    next: MirrorChannels,
    progress: Progress<(), MirrorError>,
)
    requires
        task.awaits() is Some,
        reply.answers(task.awaits()->0),
        task.step(reply, next, progress),
    ensures
        progress matches Progress::Failed(MirrorError::Listing(failure)) ==> reply
            == Reply::Failed(failure) && failure.concerns_mappings(),
{
}

/// After a failure, other than that of a lookup in the table, the mirroring ends and tells that
/// failure.
pub proof fn failure_ends_mirroring(
    task: MirrorChannels,
    failure: Failure,
    next: MirrorChannels,
    progress: Progress<(), MirrorError>,
)
    requires
        task.awaits() is Some,
        Reply::Failed(failure).answers(task.awaits()->0),
        !(failure is Database && task.awaits()->0 is Mapping),
        task.step(Reply::Failed(failure), next, progress),
    ensures
        progress.fails(MirrorError::Listing(failure)) || progress.fails(
            MirrorError::Mapping(MappingsError::of(failure)),
        ),
{
}

/// What was made is put in its place only once registering all of it is done.
pub proof fn channels_are_registered_before_they_are_placed(
    task: MirrorChannels,
    reply: Reply,
    next: MirrorChannels,
    progress: Progress<(), MirrorError>,
)
    requires
        task.step(reply, next, progress),
        next.stage is Listing,
    ensures
        match (task.stage, next.stage) {
            (
                MirrorStage::Registering { src_channels: _, made: before, registering },
                MirrorStage::Listing { src_channels: _, made },
            ) => before == made && exists|registered: RegisterMappings|
                #[trigger] registering.step(reply, registered, Progress::Done(())),
            (_, MirrorStage::Listing { src_channels: _, made }) => made@.len() == 0,
            _ => false,
        },
{
}

} // verus!
