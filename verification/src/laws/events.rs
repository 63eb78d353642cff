//! What an event leads to in every mirror of its guild.
use super::{begins, same_overwrites};
use crate::config::GuildSettings;
use crate::errors::HandlerError;
use crate::handlers::event::{
    events_reach_their_mirrors, handles, is_event_copy, mirrors_of, Event, EventStage,
    HandleEvent, HandleSingleEvent, SingleStage,
};
use crate::model::{Channel, Message, MessageUpdate};
use crate::operation::{is_run, runs_end, Progress, Reply, Task};
use vstd::prelude::*;

verus! {

// ---------------------------------------------------------------------------
// Copies
// ---------------------------------------------------------------------------

/// Whether one channel tells all that another one does.
pub open spec fn tells_the_channel(copy: Channel, channel: Channel) -> bool {
    &&& copy.id == channel.id
    &&& copy.kind == channel.kind
    &&& copy.parent_id == channel.parent_id
    &&& copy.name == channel.name
    &&& copy.topic == channel.topic
    &&& copy.nsfw == channel.nsfw
    &&& copy.position == channel.position
    &&& same_overwrites(copy.permission_overwrites, channel.permission_overwrites)
    &&& copy.invitable == channel.invitable
    &&& copy.default_auto_archive_duration == channel.default_auto_archive_duration
    &&& copy.archived == channel.archived
    &&& copy.encoded == channel.encoded
}

/// Whether one message tells all that another one does.
pub open spec fn tells_the_message(copy: Message, message: Message) -> bool {
    &&& copy.id == message.id
    &&& copy.channel_id == message.channel_id
    &&& copy.kind == message.kind
    &&& copy.content == message.content
    &&& copy.author == message.author
    &&& match (copy.member_roles, message.member_roles) {
        (Some(a), Some(b)) => a@ == b@,
        (None, None) => true,
        _ => false,
    }
    &&& copy.mention_roles@ == message.mention_roles@
    &&& copy.attachments@ == message.attachments@
    &&& copy.embeds@ == message.embeds@
    &&& copy.reference == message.reference
    &&& copy.encoded == message.encoded
}

/// Whether one edit tells all that another one does.
pub open spec fn tells_the_edit(copy: MessageUpdate, update: MessageUpdate) -> bool {
    &&& copy.id == update.id
    &&& copy.channel_id == update.channel_id
    &&& copy.content == update.content
    &&& copy.author == update.author
    &&& match (copy.mention_roles, update.mention_roles) {
        (Some(a), Some(b)) => a@ == b@,
        (None, None) => true,
        _ => false,
    }
    &&& match (copy.embeds, update.embeds) {
        (Some(a), Some(b)) => a@ == b@,
        (None, None) => true,
        _ => false,
    }
}

/// Whether one event tells all that another one does.
pub open spec fn tells_the_same(copy: Event, event: Event) -> bool {
    match event {
        Event::ChannelCreate(e) => copy is ChannelCreate && tells_the_channel(
            copy->ChannelCreate_0,
            e,
        ),
        Event::ChannelUpdate(e) => copy is ChannelUpdate && tells_the_channel(
            copy->ChannelUpdate_0,
            e,
        ),
        Event::ThreadCreate(e) => copy is ThreadCreate && tells_the_channel(
            copy->ThreadCreate_0,
            e,
        ),
        Event::ThreadUpdate(e) => copy is ThreadUpdate && tells_the_channel(
            copy->ThreadUpdate_0,
            e,
        ),
        Event::MessageCreate(e) => copy is MessageCreate && tells_the_message(
            copy->MessageCreate_0,
            e,
        ),
        Event::MessageUpdate(e) => copy is MessageUpdate && tells_the_edit(
            copy->MessageUpdate_0,
            e,
        ),
        _ => copy == event,
    }
}

/// A copy of an event tells all that the event does.
pub proof fn copies_tell_the_same(copy: Event, event: Event)
    requires
        is_event_copy(copy, event),
    ensures
        tells_the_same(copy, event),
{
}

// ---------------------------------------------------------------------------
// All mirrors
// ---------------------------------------------------------------------------

/// Whether a part of a run is the handling of an event in one mirror: it begins after answer `a`, and
/// has gone on up to answer `k`. What it has come to then is told apart.
pub open spec fn is_handling(
    singles: Seq<HandleSingleEvent>,
    event: Event,
    settings: GuildSettings,
    replies: Seq<Reply>,
    progress: Seq<Progress<(), HandlerError>>,
    handled: Progress<(), HandlerError>,
    a: int,
    k: int,
) -> bool {
    &&& 0 <= a <= k < replies.len()
    &&& is_run(
        singles,
        seq![Reply::Begin] + replies.subrange(a + 1, k + 1),
        progress.subrange(a, k).push(handled),
    )
    &&& exists|copy: Event| #[trigger]
        tells_the_same(copy, event) && begins(singles[0], copy, settings)
}

/// Whether an event was handled in a mirror from its beginning to its end.
pub open spec fn was_handled(
    event: Event,
    settings: GuildSettings,
    replies: Seq<Reply>,
    progress: Seq<Progress<(), HandlerError>>,
) -> bool {
    exists|singles: Seq<HandleSingleEvent>, a: int, k: int| #[trigger]
        is_handling(
            singles,
            event,
            settings,
            replies,
            progress,
            Progress::Done(()),
            a,
            k,
        )
}

/// Whether an event is being handled in a mirror after answer `k`.
pub open spec fn is_being_handled(
    event: Event,
    settings: GuildSettings,
    replies: Seq<Reply>,
    progress: Seq<Progress<(), HandlerError>>,
    k: int,
) -> bool {
    exists|singles: Seq<HandleSingleEvent>, a: int| #[trigger]
        is_handling(singles, event, settings, replies, progress, progress[k], a, k)
}

/// Whether these are the handling of an event in some mirrors at its beginning.
spec fn are_to_handle(
    pending: Seq<HandleSingleEvent>,
    event: Event,
    mirrors: Seq<GuildSettings>,
    done: int,
) -> bool {
    &&& 0 <= done <= mirrors.len()
    &&& pending.len() == mirrors.len() - done
    &&& forall|i: int|
        0 <= i < pending.len() ==> handles(#[trigger] pending[i], event, mirrors[done + i])
}

/// Whether the event was handled in the first mirrors.
spec fn were_handled(
    event: Event,
    mirrors: Seq<GuildSettings>,
    done: int,
    replies: Seq<Reply>,
    progress: Seq<Progress<(), HandlerError>>,
) -> bool {
    forall|i: int|
        0 <= i < done ==> was_handled(event, #[trigger] mirrors[i], replies, progress)
}

/// Whether a handling waits for the answer after `k`.
spec fn is_at_mirror(
    task: HandleEvent,
    event: Event,
    mirrors: Seq<GuildSettings>,
    replies: Seq<Reply>,
    progress: Seq<Progress<(), HandlerError>>,
    k: int,
    at: int,
) -> bool {
    &&& task.stage is Running
    &&& 0 <= at < mirrors.len()
    &&& are_to_handle(task.stage->Running_pending@, event, mirrors, at + 1)
    &&& were_handled(event, mirrors, at, replies, progress)
    &&& exists|singles: Seq<HandleSingleEvent>, a: int|
        {
            &&& #[trigger] is_handling(
                singles,
                event,
                mirrors[at],
                replies,
                progress,
                progress[k],
                a,
                k,
            )
            &&& singles.last() == task.stage->single
        }
}

/// What follows once the event was handled in the first mirrors.
proof fn next_mirror_is_taken_up(
    pending: Seq<HandleSingleEvent>,
    event: Event,
    mirrors: Seq<GuildSettings>,
    done: int,
    next: HandleEvent,
    replies: Seq<Reply>,
    progress: Seq<Progress<(), HandlerError>>,
    k: int,
)
    requires
        are_to_handle(pending, event, mirrors, done),
        were_handled(event, mirrors, done, replies, progress),
        HandleEvent::continues(pending, next, progress[k]),
        0 <= k < replies.len(),
        progress.len() == replies.len(),
    ensures
        progress[k] is Perform ==> is_at_mirror(
            next,
            event,
            mirrors,
            replies,
            progress,
            k,
            done,
        ),
        progress[k] is Done ==> done == mirrors.len(),
        !(progress[k] is Failed),
{
    if pending.len() > 0 {
        let first = pending[0];
        let single = first.at(SingleStage::Connecting);
        assert(handles(first, event, mirrors[done + 0]));
        let copy = choose|copy: Event|
            #![trigger is_event_copy(copy, event)]
            is_event_copy(copy, event) && begins(first, copy, mirrors[done]);
        copies_tell_the_same(copy, event);
        let singles = seq![first, single];
        let answers = seq![Reply::Begin] + replies.subrange(k + 1, k + 1);
        let steps = progress.subrange(k, k).push(progress[k]);
        assert forall|i: int| #![trigger answers[i]] 0 <= i < answers.len() implies {
            &&& singles[i].awaits() is Some
            &&& answers[i].answers(singles[i].awaits()->0)
            &&& singles[i].step(answers[i], singles[i + 1], steps[i])
            &&& steps[i].leaves(singles[i + 1].awaits())
        } by {
            assert(i == 0);
        }
        assert(is_handling(
            singles,
            event,
            mirrors[done],
            replies,
            progress,
            progress[k],
            k,
            k,
        ));
        let rest = pending.drop_first();
        assert forall|i: int| 0 <= i < rest.len() implies handles(
            #[trigger] rest[i],
            event,
            mirrors[done + 1 + i],
        ) by {
            assert(rest[i] == pending[i + 1]);
            assert(handles(pending[i + 1], event, mirrors[done + (i + 1)]));
        }
    }
}

/// A handling that gets another answer goes on.
proof fn handling_goes_on(
    singles: Seq<HandleSingleEvent>,
    event: Event,
    settings: GuildSettings,
    replies: Seq<Reply>,
    progress: Seq<Progress<(), HandlerError>>,
    a: int,
    k: int,
    single: HandleSingleEvent,
    handled: Progress<(), HandlerError>,
)
    requires
        is_handling(singles, event, settings, replies, progress, progress[k - 1], a, k - 1),
        a < k < replies.len(),
        progress.len() == replies.len(),
        singles.last().awaits() is Some,
        replies[k].answers(singles.last().awaits()->0),
        singles.last().step(replies[k], single, handled),
        handled.leaves(single.awaits()),
    ensures
        is_handling(singles.push(single), event, settings, replies, progress, handled, a, k),
{
    let before = seq![Reply::Begin] + replies.subrange(a + 1, k);
    let answers = seq![Reply::Begin] + replies.subrange(a + 1, k + 1);
    let past = progress.subrange(a, k - 1).push(progress[k - 1]);
    let steps = progress.subrange(a, k).push(handled);
    let tasks = singles.push(single);
    assert(replies.subrange(a + 1, k - 1 + 1) =~= replies.subrange(a + 1, k));
    assert(answers =~= before.push(replies[k]));
    assert(past =~= progress.subrange(a, k));
    assert(steps =~= past.push(handled));
    assert forall|i: int| #![trigger answers[i]] 0 <= i < answers.len() implies {
        &&& tasks[i].awaits() is Some
        &&& answers[i].answers(tasks[i].awaits()->0)
        &&& tasks[i].step(answers[i], tasks[i + 1], steps[i])
        &&& steps[i].leaves(tasks[i + 1].awaits())
    } by {
        if i < before.len() {
            let same = before[i];
            assert(answers[i] == same);
        }
    }
}

/// What the handling of an event has come to after answer `k`.
proof fn handled_to(
    tasks: Seq<HandleEvent>,
    replies: Seq<Reply>,
    progress: Seq<Progress<(), HandlerError>>,
    guild_id: Option<u64>,
    event: Event,
    config: Seq<GuildSettings>,
    k: int,
)
    requires
        is_run(tasks, replies, progress),
        tasks[0].handles_event(guild_id, event, config),
        0 <= k < replies.len(),
    ensures
        progress[k] is Perform ==> exists|at: int| #[trigger]
            is_at_mirror(
                tasks[k + 1],
                event,
                mirrors_of(guild_id, config),
                replies,
                progress,
                k,
                at,
            ),
        progress[k] is Done ==> were_handled(
            event,
            mirrors_of(guild_id, config),
            mirrors_of(guild_id, config).len() as int,
            replies,
            progress,
        ),
    decreases k,
{
    let mirrors = mirrors_of(guild_id, config);
    let reply = replies[k];
    let next = tasks[k + 1];
    if k == 0 {
        if let EventStage::Begin { pending } = tasks[0].stage {
            assert forall|i: int| 0 <= i < pending@.len() implies handles(
                #[trigger] pending@[i],
                event,
                mirrors[0 + i],
            ) by {}
            next_mirror_is_taken_up(pending@, event, mirrors, 0, next, replies, progress, 0);
        }
    } else {
        handled_to(tasks, replies, progress, guild_id, event, config, k - 1);
        let previous = replies[k - 1];
        if !(progress[k - 1] is Perform) {
            runs_end(tasks, replies, progress, k - 1);
        }
        let at = choose|at: int| #[trigger]
            is_at_mirror(tasks[k], event, mirrors, replies, progress, k - 1, at);
        if let EventStage::Running { pending, single: task } = tasks[k].stage {
            let (single, handled) = choose|
                single: HandleSingleEvent,
                handled: Progress<(), HandlerError>,
            |
                #![trigger task.step(reply, single, handled)]
                {
                    &&& task.step(reply, single, handled)
                    &&& HandleEvent::after_single(pending, single, handled, next, progress[k])
                };
            let (singles, a) = choose|singles: Seq<HandleSingleEvent>, a: int|
                {
                    &&& #[trigger] is_handling(
                        singles,
                        event,
                        mirrors[at],
                        replies,
                        progress,
                        progress[k - 1],
                        a,
                        k - 1,
                    )
                    &&& singles.last() == task
                };
            handling_goes_on(
                singles,
                event,
                mirrors[at],
                replies,
                progress,
                a,
                k,
                single,
                handled,
            );
            match handled {
                Progress::Perform(_) => {
                    assert(is_handling(
                        singles.push(single),
                        event,
                        mirrors[at],
                        replies,
                        progress,
                        progress[k],
                        a,
                        k,
                    ));
                    assert(is_at_mirror(next, event, mirrors, replies, progress, k, at));
                },
                Progress::Done(_) => {
                    assert forall|i: int| 0 <= i < at + 1 implies was_handled(
                        event,
                        #[trigger] mirrors[i],
                        replies,
                        progress,
                    ) by {
                        if i == at {
                            assert(handled == Progress::<(), HandlerError>::Done(()));
                        }
                    }
                    next_mirror_is_taken_up(
                        pending@,
                        event,
                        mirrors,
                        at + 1,
                        next,
                        replies,
                        progress,
                        k,
                    );
                },
                _ => {},
            }
        }
    }
}

/// Everything that is asked for when something happens in a guild is asked for by the handling of
/// that event, and of no other, in one of the mirrors of that guild.
pub proof fn events_are_handled_faithfully(
    tasks: Seq<HandleEvent>,
    replies: Seq<Reply>,
    progress: Seq<Progress<(), HandlerError>>,
    guild_id: Option<u64>,
    event: Event,
    config: Seq<GuildSettings>,
    k: int,
)
    requires
        is_run(tasks, replies, progress),
        tasks[0].handles_event(guild_id, event, config),
        0 <= k < replies.len(),
        progress[k] is Perform,
    ensures
        exists|settings: GuildSettings|
            {
                &&& #[trigger] config.contains(settings)
                &&& guild_id == Some(settings.src_guild_id)
                &&& is_being_handled(event, settings, replies, progress, k)
            },
{
    handled_to(tasks, replies, progress, guild_id, event, config, k);
    let mirrors = mirrors_of(guild_id, config);
    let at = choose|at: int| #[trigger]
        is_at_mirror(tasks[k + 1], event, mirrors, replies, progress, k, at);
    let settings = mirrors[at];
    if let Some(id) = guild_id {
        assert(mirrors.contains(settings));
        events_reach_their_mirrors(id, config, settings);
    }
    let (singles, a) = choose|singles: Seq<HandleSingleEvent>, a: int|
        {
            &&& #[trigger] is_handling(
                singles,
                event,
                mirrors[at],
                replies,
                progress,
                progress[k],
                a,
                k,
            )
            &&& singles.last() == tasks[k + 1].stage->single
        };
    assert(is_being_handled(event, settings, replies, progress, k));
}

/// Once what happened in a guild was handled, it was handled in every mirror of that guild, from the
/// beginning to the end.
pub proof fn events_are_handled_in_every_mirror(
    tasks: Seq<HandleEvent>,
    replies: Seq<Reply>,
    progress: Seq<Progress<(), HandlerError>>,
    guild_id: u64,
    event: Event,
    config: Seq<GuildSettings>,
    settings: GuildSettings,
)
    requires
        is_run(tasks, replies, progress),
        tasks[0].handles_event(Some(guild_id), event, config),
        replies.len() > 0,
        progress.last() is Done,
        config.contains(settings),
        settings.src_guild_id == guild_id,
    ensures
        was_handled(event, settings, replies, progress),
{
    handled_to(tasks, replies, progress, Some(guild_id), event, config, replies.len() - 1);
    events_reach_their_mirrors(guild_id, config, settings);
    let mirrors = mirrors_of(Some(guild_id), config);
    let at = choose|at: int| 0 <= at < mirrors.len() && mirrors[at] == settings;
    assert(was_handled(event, mirrors[at], replies, progress));
}

} // verus!
