//! What becomes of a new channel.
use super::begins;
use super::content::asked;
use super::creating::{
    held_kind, is_among, is_community, mirroring_begins, mirroring_channels_goes_on, Job,
};
use crate::config::GuildSettings;
use crate::errors::HandlerError;
use crate::handlers::channel::{MirrorNewChannel, NewChannelStage};
use crate::handlers::event::{Event, EventTask, HandleSingleEvent};
use crate::model::{is_copy, Channel};
use crate::operation::{is_run, runs_end, Action, Progress, Reply, Task};
use crate::util::mirror::{MirrorChannels, MirrorError};
use vstd::prelude::*;

verus! {

/// What is to be done for a new channel: it is mirrored in the guild that was got, whatever is kept
/// out or registered.
pub open spec fn new_channel_job(
    channel: Channel,
    settings: GuildSettings,
    replies: Seq<Reply>,
) -> Job {
    Job {
        sources: seq![channel],
        barred: Seq::empty(),
        free: |id: u64| true,
        found: |id: u64| false,
        src_guild_id: settings.src_guild_id,
        dest_guild: replies[2]->Guild_0,
    }
}

/// Whether the mirroring of a new channel waits for the answer after `k`.
spec fn is_mirroring_new(
    task: MirrorNewChannel,
    channel: Channel,
    settings: GuildSettings,
    actions: Seq<Option<Action>>,
    replies: Seq<Reply>,
    k: int,
) -> bool {
    &&& task.src_guild_id == settings.src_guild_id
    &&& task.dest_guild_id == settings.dest_guild_id
    &&& match task.stage {
        NewChannelStage::GettingGuild(kept) => kept == channel && k == 1,
        NewChannelStage::ListingChannels { channel: kept, dest_guild } => {
            &&& kept == channel
            &&& k == 2
            &&& replies[2] == Reply::Guild(dest_guild)
        },
        NewChannelStage::Mirroring(mirroring) => {
            &&& k >= 3
            &&& replies[2] is Guild
            &&& replies[3] is Channels
            &&& new_channel_job(channel, settings, replies).is_mirroring(
                mirroring,
                replies[3]->Channels_0,
                actions,
                replies,
                k,
            )
        },
        _ => false,
    }
}

/// What is asked for a new channel after answer `k`: the mirroring guild, what the mirrored one has,
/// and what mirroring the channel takes.
pub open spec fn is_asked_for_channel(
    action: Action,
    channel: Channel,
    settings: GuildSettings,
    actions: Seq<Option<Action>>,
    replies: Seq<Reply>,
    k: int,
) -> bool {
    if k == 0 {
        action is Connect
    } else if k == 1 {
        action == Action::GetGuild(settings.dest_guild_id)
    } else if k == 2 {
        action == Action::GetGuildChannels(settings.src_guild_id)
    } else {
        &&& replies[2] is Guild
        &&& replies[3] is Channels
        &&& new_channel_job(channel, settings, replies).is_for(
            action,
            replies[3]->Channels_0@,
            actions,
            replies,
            k,
        )
    }
}

/// What the mirroring of a new channel has come to after answer `k`.
proof fn new_channel_mirrored_to(
    tasks: Seq<HandleSingleEvent>,
    replies: Seq<Reply>,
    progress: Seq<Progress<(), HandlerError>>,
    settings: GuildSettings,
    channel: Channel,
    k: int,
)
    requires
        is_run(tasks, replies, progress),
        begins(tasks[0], Event::ChannelCreate(channel), settings),
        0 <= k < replies.len(),
    ensures
        k == 0 ==> tasks[1] == tasks[0].at(crate::handlers::event::SingleStage::Connecting),
        progress[k] matches Progress::Perform(action) ==> {
            &&& k > 0 ==> {
                &&& tasks[k + 1].stage is Running
                &&& tasks[k + 1].task matches EventTask::ChannelCreate(task) && is_mirroring_new(
                    task,
                    channel,
                    settings,
                    asked(progress),
                    replies,
                    k,
                )
            }
            &&& is_asked_for_channel(action, channel, settings, asked(progress), replies, k)
        },
        progress[k] is Done ==> {
            &&& k >= 3
            &&& replies[2] is Guild
            &&& new_channel_job(channel, settings, replies).covers(Seq::empty(), asked(progress))
        },
    decreases k,
{
    let actions = asked(progress);
    let reply = replies[k];
    if k > 0 {
        new_channel_mirrored_to(tasks, replies, progress, settings, channel, k - 1);
        if !(progress[k - 1] is Perform) {
            runs_end(tasks, replies, progress, k - 1);
        }
    }
    if k > 1 {
        let job = new_channel_job(channel, settings, replies);
        if let EventTask::ChannelCreate(task) = tasks[k].task {
            if let EventTask::ChannelCreate(next) = tasks[k + 1].task {
                let ended = task.at(NewChannelStage::Ended);
                match (task.stage, reply) {
                    (
                        NewChannelStage::ListingChannels { channel: kept, dest_guild },
                        Reply::Channels(channels),
                    ) => {
                        let (before, mirroring, mirrored) = choose|
                            before: MirrorChannels,
                            mirroring: MirrorChannels,
                            mirrored: Progress<(), MirrorError>,
                        |
                            #![trigger before.step(Reply::Begin, mirroring, mirrored)]
                            {
                                &&& before.src_guild_id == task.src_guild_id
                                &&& before.dest_guild == dest_guild
                                &&& before.stage is Begin
                                &&& before.stage->new_channels@ == seq![channel]
                                &&& before.stage->Begin_src_channels == channels
                                &&& before.step(Reply::Begin, mirroring, mirrored)
                                &&& ended.after_mirroring(mirroring, mirrored, next, progress[k])
                            };
                        let new_channels = before.stage->new_channels;
                        assert(job.sources[0] == channel);
                        assert(job.is_source(channel));
                        assert(job.holds(new_channels@[0]));
                        assert(is_copy(new_channels@[0], channel));
                        assert(is_among(channel, new_channels@));
                        mirroring_begins(
                            job,
                            before,
                            new_channels,
                            channels,
                            mirroring,
                            mirrored,
                            actions,
                            replies,
                            k,
                        );
                    },
                    (NewChannelStage::Mirroring(before), _) => {
                        let (mirroring, mirrored) = choose|
                            mirroring: MirrorChannels,
                            mirrored: Progress<(), MirrorError>,
                        |
                            #![trigger before.step(reply, mirroring, mirrored)]
                            {
                                &&& before.step(reply, mirroring, mirrored)
                                &&& ended.after_mirroring(mirroring, mirrored, next, progress[k])
                            };
                        mirroring_channels_goes_on(
                            job,
                            before,
                            replies[3]->Channels_0,
                            mirroring,
                            mirrored,
                            actions,
                            replies,
                            k,
                        );
                    },
                    _ => {},
                }
            }
        }
    }
}

/// Everything that is asked for when a channel is created mirrors that channel: what is created is
/// like it, and is created in the mirroring guild as it was got; what is registered leads from it to
/// what was created; and mirrors are put where the channels they mirror are.
pub proof fn new_channel_is_mirrored_faithfully(
    tasks: Seq<HandleSingleEvent>,
    replies: Seq<Reply>,
    progress: Seq<Progress<(), HandlerError>>,
    settings: GuildSettings,
    channel: Channel,
    k: int,
)
    requires
        is_run(tasks, replies, progress),
        begins(tasks[0], Event::ChannelCreate(channel), settings),
        0 <= k < replies.len(),
        progress[k] is Perform,
    ensures
        is_asked_for_channel(
            progress[k]->Perform_0,
            channel,
            settings,
            asked(progress),
            replies,
            k,
        ),
{
    new_channel_mirrored_to(tasks, replies, progress, settings, channel, k);
}

/// Once a new channel was dealt with, it was asked for in the mirroring guild, unless that guild
/// cannot hold it.
pub proof fn new_channel_is_mirrored(
    tasks: Seq<HandleSingleEvent>,
    replies: Seq<Reply>,
    progress: Seq<Progress<(), HandlerError>>,
    settings: GuildSettings,
    channel: Channel,
)
    requires
        is_run(tasks, replies, progress),
        begins(tasks[0], Event::ChannelCreate(channel), settings),
        replies.len() > 0,
        progress.last() is Done,
    ensures
        replies.len() > 3,
        replies[2] is Guild,
        held_kind(channel.kind, is_community(replies[2]->Guild_0)) is Some ==> new_channel_job(
            channel,
            settings,
            replies,
        ).was_asked_for(channel, asked(progress)),
{
    new_channel_mirrored_to(tasks, replies, progress, settings, channel, replies.len() - 1);
    let job = new_channel_job(channel, settings, replies);
    assert(job.sources[0] == channel);
}

} // verus!
