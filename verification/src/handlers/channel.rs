//! What a new or a changed channel leads to.
use crate::config::GuildSettings;
use crate::errors::HandlerError;
use crate::model::{
    copy_overwrites, keep, kept, overwrites_view, Channel, Guild, MappingData, MappingView,
};
use crate::operation::{
    destination, Action, ChannelChange, Progress, Reply, ReplyKind, Task,
};
use crate::text::copy_text;
use crate::util::mirror::{mirror_channels, MirrorChannels, MirrorError, MirrorStage};
use crate::validation::{
    check_name, check_topic, first_of, first_refusal, optional_name_refusal,
    optional_topic_refusal, Refusal,
};
use vstd::prelude::*;

verus! {

// ---------------------------------------------------------------------------
// A new channel
// ---------------------------------------------------------------------------

/// How far the mirroring has come.
pub enum NewChannelStage {
    Begin(Channel),
    GettingGuild(Channel),
    ListingChannels { channel: Channel, dest_guild: Guild },
    Mirroring(MirrorChannels),
    Ended,
}

/// Mirrors a channel that was created.
pub struct MirrorNewChannel {
    pub src_guild_id: u64,
    pub dest_guild_id: u64,
    pub stage: NewChannelStage,
}

/// Begins to mirror a channel that was created.
pub fn mirror_new_channel(channel: Channel, settings: &GuildSettings) -> (task: MirrorNewChannel)
    ensures
        task.wf(),
        task == (MirrorNewChannel {
            src_guild_id: settings.src_guild_id,
            dest_guild_id: settings.dest_guild_id,
            stage: NewChannelStage::Begin(channel),
        }),
{
    MirrorNewChannel {
        src_guild_id: settings.src_guild_id,
        dest_guild_id: settings.dest_guild_id,
        stage: NewChannelStage::Begin(channel),
    }
}

/// What a failure of the mirroring is told as.
pub open spec fn mirror_error(error: MirrorError) -> HandlerError {
    match error {
        MirrorError::Listing(failure) => HandlerError::of(failure),
        MirrorError::Mapping(error) => HandlerError::Mapping(error),
    }
}

impl MirrorNewChannel {
    /// The same mirroring, at another stage.
    pub open spec fn at(self, stage: NewChannelStage) -> MirrorNewChannel {
        MirrorNewChannel { stage, ..self }
    }

    /// What follows from a step of the mirroring.
    pub open spec fn after_mirroring(
        self,
        mirroring: MirrorChannels,
        mirrored: Progress<(), MirrorError>,
        next: Self,
        progress: Progress<(), HandlerError>,
    ) -> bool {
        match mirrored {
            Progress::Perform(action) => {
                &&& next == self.at(NewChannelStage::Mirroring(mirroring))
                &&& progress.performs(action)
            },
            Progress::Failed(error) => {
                &&& next == self.at(NewChannelStage::Ended)
                &&& progress.fails(mirror_error(error))
            },
            Progress::Done(()) => next == self.at(NewChannelStage::Ended) && progress.yields(()),
        }
    }

    fn continue_mirroring(
        self,
        step: (MirrorChannels, Progress<(), MirrorError>),
    ) -> (res: (Self, Progress<(), HandlerError>))
        requires
            step.0.wf(),
            step.1.leaves(step.0.awaits()),
        ensures
            self.after_mirroring(step.0, step.1, res.0, res.1),
            res.0.wf(),
            res.1.leaves(res.0.awaits()),
    {
        let (mirroring, mirrored) = step;
        match mirrored {
            Progress::Perform(action) => (
                MirrorNewChannel { stage: NewChannelStage::Mirroring(mirroring), ..self },
                Progress::Perform(action),
            ),
            Progress::Failed(error) => {
                let error = match error {
                    MirrorError::Listing(failure) => HandlerError::from_failure(failure),
                    MirrorError::Mapping(error) => HandlerError::Mapping(error),
                };
                (
                    MirrorNewChannel { stage: NewChannelStage::Ended, ..self },
                    Progress::Failed(error),
                )
            },
            Progress::Done(()) => (
                MirrorNewChannel { stage: NewChannelStage::Ended, ..self },
                Progress::Done(()),
            ),
        }
    }
}

impl Task for MirrorNewChannel {
    type Output = ();

    type Error = HandlerError;

    open spec fn wf(self) -> bool {
        match self.stage {
            NewChannelStage::Mirroring(mirroring) => mirroring.wf(),
            _ => true,
        }
    }

    open spec fn awaits(self) -> Option<ReplyKind> {
        match self.stage {
            NewChannelStage::Begin(_) => Some(ReplyKind::Begin),
            NewChannelStage::GettingGuild(_) => Some(ReplyKind::Guild),
            NewChannelStage::ListingChannels { .. } => Some(ReplyKind::Channels),
            NewChannelStage::Mirroring(mirroring) => mirroring.awaits(),
            NewChannelStage::Ended => None,
        }
    }

    open spec fn step(
        self,
        reply: Reply,
        next: Self,
        progress: Progress<(), HandlerError>,
    ) -> bool {
        let ended = self.at(NewChannelStage::Ended);
        match (self.stage, reply) {
            (NewChannelStage::Mirroring(task), _) => exists|mirroring: MirrorChannels, mirrored|
                #![trigger task.step(reply, mirroring, mirrored)]
                {
                    &&& task.step(reply, mirroring, mirrored)
                    &&& ended.after_mirroring(mirroring, mirrored, next, progress)
                },
            (_, Reply::Failed(failure)) => next == ended && progress.fails(
                HandlerError::of(failure),
            ),
            (NewChannelStage::Begin(channel), Reply::Begin) => {
                &&& next == self.at(NewChannelStage::GettingGuild(channel))
                &&& progress.performs(Action::GetGuild(self.dest_guild_id))
            },
            (NewChannelStage::GettingGuild(channel), Reply::Guild(dest_guild)) => {
                &&& next == self.at(NewChannelStage::ListingChannels { channel, dest_guild })
                &&& progress.performs(Action::GetGuildChannels(self.src_guild_id))
            },
            (
                NewChannelStage::ListingChannels { channel, dest_guild },
                Reply::Channels(src_channels),
            ) => exists|task: MirrorChannels, mirroring: MirrorChannels, mirrored|
                #![trigger task.step(Reply::Begin, mirroring, mirrored)]
                {
                    &&& task.src_guild_id == self.src_guild_id
                    &&& task.dest_guild == dest_guild
                    &&& task.stage matches MirrorStage::Begin {
                        new_channels,
                        src_channels: all_channels,
                    }
                    &&& new_channels@ == seq![channel]
                    &&& all_channels == src_channels
                    &&& task.step(Reply::Begin, mirroring, mirrored)
                    &&& ended.after_mirroring(mirroring, mirrored, next, progress)
                },
            _ => false,
        }
    }

    fn resume(self, reply: Reply) -> (res: (Self, Progress<(), HandlerError>)) {
        assert(self.wf());
        let MirrorNewChannel { src_guild_id, dest_guild_id, stage } = self;
        let ended = MirrorNewChannel {
            src_guild_id,
            dest_guild_id,
            stage: NewChannelStage::Ended,
        };
        match (stage, reply) {
            (NewChannelStage::Mirroring(mirroring), reply) => {
                let step = mirroring.resume(reply);
                ended.continue_mirroring(step)
            },
            (_, Reply::Failed(failure)) => (
                ended,
                Progress::Failed(HandlerError::from_failure(failure)),
            ),
            (NewChannelStage::Begin(channel), Reply::Begin) => (
                MirrorNewChannel { stage: NewChannelStage::GettingGuild(channel), ..ended },
                Progress::Perform(Action::GetGuild(dest_guild_id)),
            ),
            (NewChannelStage::GettingGuild(channel), Reply::Guild(dest_guild)) => {
                let stage = NewChannelStage::ListingChannels { channel, dest_guild };
                (
                    MirrorNewChannel { stage, ..ended },
                    Progress::Perform(Action::GetGuildChannels(src_guild_id)),
                )
            },
            (
                NewChannelStage::ListingChannels { channel, dest_guild },
                Reply::Channels(src_channels),
            ) => {
                let mut new_channels: Vec<Channel> = Vec::new();
                new_channels.push(channel);
                assert(new_channels@ =~= seq![channel]);
                let task = mirror_channels(src_guild_id, dest_guild, new_channels, src_channels);
                let step = task.resume(Reply::Begin);
                ended.continue_mirroring(step)
            },
            _ => vstd::pervasive::unreached(),
        }
    }
}

// ---------------------------------------------------------------------------
// A changed channel
// ---------------------------------------------------------------------------

/// Whether a request lets a mirror follow a channel. What the channel does not tell stays,
/// except for the parent.
pub open spec fn follows(
    change: ChannelChange,
    channel: Channel,
    dest_channel_id: u64,
    parent_id: Option<u64>,
) -> bool {
    &&& change.channel_id == dest_channel_id
    &&& change.name == channel.name
    &&& change.nsfw == channel.nsfw
    &&& change.topic == channel.topic
    &&& overwrites_view(change.permission_overwrites) == overwrites_view(
        channel.permission_overwrites,
    )
    &&& change.position == (match channel.position {
        Some(position) => Some(position as u64),
        None => None,
    })
    &&& change.kind == channel.kind
    &&& change.parent_id == parent_id
}

/// Why a mirror cannot follow a channel: for its name, or else for its topic.
pub open spec fn follow_refusal(channel: Channel) -> Refusal {
    first_of(optional_name_refusal(channel.name), optional_topic_refusal(channel.topic))
}

/// The request that lets a mirror follow a channel.
pub fn follow(channel: &Channel, dest_channel_id: u64, parent_id: Option<u64>) -> (change:
    ChannelChange)
    ensures
        follows(change, *channel, dest_channel_id, parent_id),
{
    ChannelChange {
        channel_id: dest_channel_id,
        name: copy_text(&channel.name),
        nsfw: channel.nsfw,
        topic: copy_text(&channel.topic),
        permission_overwrites: copy_overwrites(&channel.permission_overwrites),
        position: match channel.position {
            Some(position) => Some(position as u64),
            None => None,
        },
        kind: channel.kind,
        parent_id,
    }
}

/// How far the relaying has come.
pub enum ChannelUpdateStage {
    Begin(Channel),
    Finding(Channel),
    FindingParent { channel: Channel, dest_channel_id: u64 },
    Changing(Channel),
    FindingAgain { channel: Channel, dest_channel: Channel },
    Updating,
    Ended,
}

/// Lets the mirror of a channel follow its change, and keeps both as they are now.
pub struct RelayChannelUpdate {
    pub relay_updates: bool,
    pub stage: ChannelUpdateStage,
}

/// Begins to relay the change of a channel.
pub fn relay_channel_update(channel: Channel, settings: &GuildSettings) -> (task:
    RelayChannelUpdate)
    ensures
        task.wf(),
        task == (RelayChannelUpdate {
            relay_updates: settings.relay_updates,
            stage: ChannelUpdateStage::Begin(channel),
        }),
{
    RelayChannelUpdate {
        relay_updates: settings.relay_updates,
        stage: ChannelUpdateStage::Begin(channel),
    }
}

impl RelayChannelUpdate {
    /// The same relaying, at another stage.
    pub open spec fn at(self, stage: ChannelUpdateStage) -> RelayChannelUpdate {
        RelayChannelUpdate { stage, ..self }
    }

    /// Whether the mirror is now changed, unless a channel cannot have the name or the topic.
    pub open spec fn changes(
        self,
        channel: Channel,
        dest_channel_id: u64,
        parent_id: Option<u64>,
        next: Self,
        progress: Progress<(), HandlerError>,
    ) -> bool {
        match follow_refusal(channel) {
            Some(reason) => next == self.at(ChannelUpdateStage::Ended)
                && progress.refuses_channel(reason),
            None => {
                &&& next == self.at(ChannelUpdateStage::Changing(channel))
                &&& progress matches Progress::Perform(Action::ChangeChannel(change))
                &&& follows(change, channel, dest_channel_id, parent_id)
            },
        }
    }

    fn change(self, channel: Channel, dest_channel_id: u64, parent_id: Option<u64>) -> (res: (
        Self,
        Progress<(), HandlerError>,
    ))
        ensures
            self.changes(channel, dest_channel_id, parent_id, res.0, res.1),
    {
        if let Err(reason) = first_refusal(
            check_name(&channel.name),
            check_topic(&channel.topic),
        ) {
            return (
                RelayChannelUpdate { stage: ChannelUpdateStage::Ended, ..self },
                Progress::Failed(HandlerError::ClientChannelValidation(reason)),
            );
        }
        let action = Action::ChangeChannel(follow(&channel, dest_channel_id, parent_id));
        (
            RelayChannelUpdate { stage: ChannelUpdateStage::Changing(channel), ..self },
            Progress::Perform(action),
        )
    }
}

impl Task for RelayChannelUpdate {
    type Output = ();

    type Error = HandlerError;

    open spec fn wf(self) -> bool {
        true
    }

    open spec fn awaits(self) -> Option<ReplyKind> {
        match self.stage {
            ChannelUpdateStage::Begin(_) => Some(ReplyKind::Begin),
            ChannelUpdateStage::Finding(_) => Some(ReplyKind::Mapping),
            ChannelUpdateStage::FindingParent { .. } => Some(ReplyKind::Mapping),
            ChannelUpdateStage::Changing(_) => Some(ReplyKind::Channel),
            ChannelUpdateStage::FindingAgain { .. } => Some(ReplyKind::Record),
            ChannelUpdateStage::Updating => Some(ReplyKind::Done),
            ChannelUpdateStage::Ended => None,
        }
    }

    open spec fn step(
        self,
        reply: Reply,
        next: Self,
        progress: Progress<(), HandlerError>,
    ) -> bool {
        let ended = self.at(ChannelUpdateStage::Ended);
        match (self.stage, reply) {
            (_, Reply::Failed(failure)) => next == ended && progress.fails(
                HandlerError::of(failure),
            ),
            (ChannelUpdateStage::Begin(channel), Reply::Begin) => if self.relay_updates {
                &&& next == self.at(ChannelUpdateStage::Finding(channel))
                &&& progress.performs(Action::GetMapping { orig_id: channel.id })
            } else {
                next == ended && progress.yields(())
            },
            (ChannelUpdateStage::Finding(channel), Reply::Mapping(found)) => match (
                destination(found),
                channel.parent_id,
            ) {
                (Some(dest_channel_id), Some(parent_id)) => {
                    &&& next == self.at(
                        ChannelUpdateStage::FindingParent { channel, dest_channel_id },
                    )
                    &&& progress.performs(Action::GetMapping { orig_id: parent_id })
                },
                (Some(dest_channel_id), None) => ended.changes(
                    channel,
                    dest_channel_id,
                    None,
                    next,
                    progress,
                ),
                (None, _) => next == ended && progress.yields(()),
            },
            (
                ChannelUpdateStage::FindingParent { channel, dest_channel_id },
                Reply::Mapping(found),
            ) => ended.changes(channel, dest_channel_id, destination(found), next, progress),
            (ChannelUpdateStage::Changing(channel), Reply::Channel(dest_channel)) => {
                &&& next == self.at(ChannelUpdateStage::FindingAgain { channel, dest_channel })
                &&& progress.performs(Action::FindMapping { orig_id: channel.id })
            },
            (
                ChannelUpdateStage::FindingAgain { channel, dest_channel },
                Reply::Mapping(Some(mapping)),
            ) => match kept(
                mapping@,
                MappingData::Channel(channel),
                MappingData::Channel(dest_channel),
            ) {
                Ok(new_mapping) => {
                    &&& next == self.at(ChannelUpdateStage::Updating)
                    &&& progress.updates(mapping@, new_mapping)
                },
                Err(error) => next == ended && progress.fails(HandlerError::Database(error)),
            },
            (ChannelUpdateStage::FindingAgain { .. }, Reply::Mapping(None)) => next == ended
                && progress.yields(()),
            (ChannelUpdateStage::Updating, Reply::Done) => next == ended && progress.yields(()),
            _ => false,
        }
    }

    fn resume(self, reply: Reply) -> (res: (Self, Progress<(), HandlerError>)) {
        let RelayChannelUpdate { relay_updates, stage } = self;
        let ended = RelayChannelUpdate { relay_updates, stage: ChannelUpdateStage::Ended };
        match (stage, reply) {
            (_, Reply::Failed(failure)) => (
                ended,
                Progress::Failed(HandlerError::from_failure(failure)),
            ),
            (ChannelUpdateStage::Begin(channel), Reply::Begin) => {
                if relay_updates {
                    let action = Action::GetMapping { orig_id: channel.id };
                    (
                        RelayChannelUpdate {
                            stage: ChannelUpdateStage::Finding(channel),
                            ..ended
                        },
                        Progress::Perform(action),
                    )
                } else {
                    (ended, Progress::Done(()))
                }
            },
            (ChannelUpdateStage::Finding(channel), Reply::Mapping(found)) => {
                let Some(mapping) = found else {
                    return (ended, Progress::Done(()));
                };
                let dest_channel_id = mapping.ref_id();
                match channel.parent_id {
                    Some(parent_id) => {
                        let stage = ChannelUpdateStage::FindingParent { channel, dest_channel_id };
                        (
                            RelayChannelUpdate { stage, ..ended },
                            Progress::Perform(Action::GetMapping { orig_id: parent_id }),
                        )
                    },
                    None => ended.change(channel, dest_channel_id, None),
                }
            },
            (
                ChannelUpdateStage::FindingParent { channel, dest_channel_id },
                Reply::Mapping(found),
            ) => {
                let parent_id = match found {
                    Some(mapping) => Some(mapping.ref_id()),
                    None => None,
                };
                ended.change(channel, dest_channel_id, parent_id)
            },
            (ChannelUpdateStage::Changing(channel), Reply::Channel(dest_channel)) => {
                let action = Action::FindMapping { orig_id: channel.id };
                let stage = ChannelUpdateStage::FindingAgain { channel, dest_channel };
                (RelayChannelUpdate { stage, ..ended }, Progress::Perform(action))
            },
            (
                ChannelUpdateStage::FindingAgain { channel, dest_channel },
                Reply::Mapping(found),
            ) => {
                let Some(mapping) = found else {
                    return (ended, Progress::Done(()));
                };
                let src = MappingData::Channel(channel);
                let dest = MappingData::Channel(dest_channel);
                match keep(mapping.clone(), src, dest) {
                    Ok(new_mapping) => (
                        RelayChannelUpdate { stage: ChannelUpdateStage::Updating, ..ended },
                        Progress::Perform(Action::UpdateMapping { mapping, new_mapping }),
                    ),
                    Err(error) => (ended, Progress::Failed(HandlerError::Database(error))),
                }
            },
            (ChannelUpdateStage::Updating, Reply::Done) => (ended, Progress::Done(())),
            _ => vstd::pervasive::unreached(),
        }
    }
}

/// Where changes are not relayed, the change of a channel leads to no operation at all.
pub proof fn unrelayed_channel_update_does_nothing(
    task: RelayChannelUpdate,
    next: RelayChannelUpdate,
    progress: Progress<(), HandlerError>,
)
    requires
        !task.relay_updates,
        task.stage is Begin,
        task.step(Reply::Begin, next, progress),
    ensures
        progress.yields(()),
        next.awaits() is None,
{
}

/// Replacing a mapping after a change keeps what it leads from and what it leads to.
pub proof fn channel_update_keeps_mapping(
    task: RelayChannelUpdate,
    reply: Reply,
    next: RelayChannelUpdate,
    progress: Progress<(), HandlerError>,
    mapping: MappingView,
    new_mapping: MappingView,
)
    requires
        task.step(reply, next, progress),
        progress.updates(mapping, new_mapping),
    ensures
        new_mapping.primary_key() == mapping.primary_key(),
        new_mapping.orig_guild_id == mapping.orig_guild_id,
        new_mapping.ref_guild_id == mapping.ref_guild_id,
        new_mapping.src_mapping_data is Some,
        new_mapping.dest_mapping_data is Some,
{
}

} // verus!
