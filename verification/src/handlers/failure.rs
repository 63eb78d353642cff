//! What a failed operation leads to: unless it is tolerated, nothing more is asked for, and the
//! failure is told.
use crate::errors::{Failure, HandlerError, MappingsError};
use crate::handlers::channel::{MirrorNewChannel, NewChannelStage};
use crate::handlers::edit::RelayEdit;
use crate::handlers::event::{EventStage, EventTask, HandleEvent, HandleSingleEvent};
use crate::handlers::format::{FormatMessage, Formatted};
use crate::handlers::message::{MessageStage, MirrorMessage};
use crate::handlers::thread::{GetOrCreateThread, Target, ThreadStage};
use crate::operation::{Progress, Reply, ReplyKind, Task};
use crate::util::mirror::{failure_ends_mirroring, MirrorChannels};
use vstd::prelude::*;

verus! {

/// Whether a channel has no webhooks of its own, which may be because it is a thread.
pub open spec fn may_be_thread(failure: Failure, kind: ReplyKind) -> bool {
    kind is Webhooks && failure.has_status(404)
}

/// Whether the handling of an event goes on after a failure: a channel may turn out to be a
/// thread, and a lookup in the table may fail while a new channel is put in its place.
pub open spec fn tolerates(task: HandleSingleEvent, failure: Failure) -> bool {
    match task.awaits() {
        Some(kind) => {
            ||| may_be_thread(failure, kind)
            ||| task.task is ChannelCreate && failure is Database && kind is Mapping
        },
        None => false,
    }
}

/// How a failure is told.
pub open spec fn tells(error: HandlerError, failure: Failure) -> bool {
    error == HandlerError::of(failure) || error == HandlerError::Mapping(MappingsError::of(failure))
}

/// Whether a task ends with a failure.
pub open spec fn ends_with<T>(progress: Progress<T, HandlerError>, failure: Failure) -> bool {
    progress matches Progress::Failed(error) && tells(error, failure)
}

/// A failure ends the formatting of a message.
proof fn formatting_ends(
    task: FormatMessage,
    failure: Failure,
    next: FormatMessage,
    progress: Progress<Formatted, HandlerError>,
)
    requires
        !(task.stage is Begin),
        task.step(Reply::Failed(failure), next, progress),
    ensures
        ends_with(progress, failure),
{
}

/// A failure ends the search for the place of a message.
proof fn targeting_ends(
    task: GetOrCreateThread,
    failure: Failure,
    next: GetOrCreateThread,
    progress: Progress<Target, HandlerError>,
)
    requires
        task.awaits() is Some,
        Reply::Failed(failure).answers(task.awaits()->0),
        task.step(Reply::Failed(failure), next, progress),
    ensures
        ends_with(progress, failure),
{
    if let ThreadStage::Formatting { src_thread, dest_parent, formatting: child } = task.stage {
        let ended = task.at(ThreadStage::Ended);
        let (formatting, formatted) = choose|formatting: FormatMessage, formatted|
            #![trigger child.step(Reply::Failed(failure), formatting, formatted)]
            child.step(Reply::Failed(failure), formatting, formatted) && ended.after_formatting(
                src_thread,
                dest_parent,
                formatting,
                formatted,
                next,
                progress,
            );
        formatting_ends(child, failure, formatting, formatted);
    }
}

/// A failure ends the mirroring of a message.
proof fn message_ends(
    task: MirrorMessage,
    failure: Failure,
    next: MirrorMessage,
    progress: Progress<(), HandlerError>,
)
    requires
        task.awaits() is Some,
        Reply::Failed(failure).answers(task.awaits()->0),
        !may_be_thread(failure, task.awaits()->0),
        task.step(Reply::Failed(failure), next, progress),
    ensures
        ends_with(progress, failure),
{
    let reply = Reply::Failed(failure);
    let ended = task.at(MessageStage::Ended);
    match task.stage {
        MessageStage::Targeting(child) => {
            let (targeting, targeted) = choose|targeting: GetOrCreateThread, targeted|
                #![trigger child.step(reply, targeting, targeted)]
                child.step(reply, targeting, targeted) && ended.after_targeting(
                    targeting,
                    targeted,
                    next,
                    progress,
                );
            targeting_ends(child, failure, targeting, targeted);
        },
        MessageStage::Formatting { dest, dest_channel_id, is_parent_forum, formatting: child } => {
            let (formatting, formatted) = choose|formatting: FormatMessage, formatted|
                #![trigger child.step(reply, formatting, formatted)]
                child.step(reply, formatting, formatted) && ended.after_formatting(
                    dest,
                    dest_channel_id,
                    is_parent_forum,
                    formatting,
                    formatted,
                    next,
                    progress,
                );
            formatting_ends(child, failure, formatting, formatted);
        },
        _ => {},
    }
}

/// A failure ends the relaying of an edit.
proof fn edit_ends(
    task: RelayEdit,
    failure: Failure,
    next: RelayEdit,
    progress: Progress<(), HandlerError>,
)
    requires
        task.awaits() is Some,
        Reply::Failed(failure).answers(task.awaits()->0),
        !may_be_thread(failure, task.awaits()->0),
        task.step(Reply::Failed(failure), next, progress),
    ensures
        ends_with(progress, failure),
{
}

/// A failure ends the mirroring of a new channel.
proof fn new_channel_ends(
    task: MirrorNewChannel,
    failure: Failure,
    next: MirrorNewChannel,
    progress: Progress<(), HandlerError>,
)
    requires
        task.awaits() is Some,
        Reply::Failed(failure).answers(task.awaits()->0),
        !(failure is Database && task.awaits()->0 is Mapping),
        task.step(Reply::Failed(failure), next, progress),
    ensures
        ends_with(progress, failure),
{
    let reply = Reply::Failed(failure);
    let ended = task.at(NewChannelStage::Ended);
    if let NewChannelStage::Mirroring(child) = task.stage {
        let (mirroring, mirrored) = choose|mirroring: MirrorChannels, mirrored|
            #![trigger child.step(reply, mirroring, mirrored)]
            child.step(reply, mirroring, mirrored) && ended.after_mirroring(
                mirroring,
                mirrored,
                next,
                progress,
            );
        failure_ends_mirroring(child, failure, mirroring, mirrored);
    }
}

/// After a failure that is not tolerated, what an event leads to asks for nothing more, and
/// tells that failure.
pub proof fn failure_ends_single_event(
    task: HandleSingleEvent,
    failure: Failure,
    next: HandleSingleEvent,
    progress: Progress<(), HandlerError>,
)
    requires
        task.awaits() is Some,
        Reply::Failed(failure).answers(task.awaits()->0),
        !tolerates(task, failure),
        task.step(Reply::Failed(failure), next, progress),
    ensures
        ends_with(progress, failure),
        next.awaits() is None,
{
    if task.stage is Running {
        match (task.task, next.task) {
            (EventTask::ChannelCreate(child), EventTask::ChannelCreate(after)) => {
                new_channel_ends(child, failure, after, progress);
            },
            (EventTask::MessageCreate(child), EventTask::MessageCreate(after)) => {
                message_ends(child, failure, after, progress);
            },
            (EventTask::MessageUpdate(child), EventTask::MessageUpdate(after)) => {
                edit_ends(child, failure, after, progress);
            },
            _ => {},
        }
    }
}

/// After a failure that is not tolerated, an event is handled no further: not for this mirror,
/// and not for those that come after it.
pub proof fn failure_ends_event(
    task: HandleEvent,
    failure: Failure,
    next: HandleEvent,
    progress: Progress<(), HandlerError>,
)
    requires
        task.awaits() is Some,
        Reply::Failed(failure).answers(task.awaits()->0),
        task.stage matches EventStage::Running { single, .. } ==> !tolerates(single, failure),
        task.step(Reply::Failed(failure), next, progress),
    ensures
        ends_with(progress, failure),
        next.awaits() is None,
{
    let reply = Reply::Failed(failure);
    if let EventStage::Running { pending, single: child } = task.stage {
        let (single, handled) = choose|single: HandleSingleEvent, handled|
            #![trigger child.step(reply, single, handled)]
            child.step(reply, single, handled) && HandleEvent::after_single(
                pending,
                single,
                handled,
                next,
                progress,
            );
        failure_ends_single_event(child, failure, single, handled);
    }
}

} // verus!
