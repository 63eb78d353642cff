//! What an event leads to, for each mirror of the guild it comes from.
use crate::config::GuildSettings;
use crate::errors::HandlerError;
use crate::handlers::channel::{
    mirror_new_channel, relay_channel_update, ChannelUpdateStage, MirrorNewChannel,
    NewChannelStage, RelayChannelUpdate,
};
use crate::handlers::delete::{relay_delete, DeleteStage, RelayDelete};
use crate::handlers::edit::{relay_edit, EditStage, RelayEdit};
use crate::handlers::message::{ignored, mirror_message, MessageStage, MirrorMessage};
use crate::handlers::role::{
    mirror_new_role, relay_role_update, MirrorNewRole, NewRoleStage, RelayRoleUpdate,
    RoleUpdateStage,
};
use crate::handlers::thread_event::{
    mirror_new_thread, open_parent, relay_thread_update, MirrorNewThread, NewThreadStage,
    RelayThreadUpdate, ThreadUpdateStage,
};
use crate::model::{
    is_copy, is_message_copy, is_update_copy, Channel, Message, MessageUpdate, Role,
};
use crate::operation::{Action, Progress, Reply, ReplyKind, Task};
use crate::util::remove::Deletion;
use vstd::prelude::*;

verus! {

// ---------------------------------------------------------------------------
// Events
// ---------------------------------------------------------------------------

/// Something that happened in a guild.
#[derive(Debug)]
pub enum Event {
    ChannelCreate(Channel),
    ChannelUpdate(Channel),
    ChannelDelete(u64),
    MessageCreate(Message),
    MessageUpdate(MessageUpdate),
    RoleCreate(Role),
    RoleUpdate(Role),
    RoleDelete(u64),
    ThreadCreate(Channel),
    ThreadUpdate(Channel),
    ThreadDelete(u64),
    /// Nothing that is mirrored.
    Other,
}

/// Whether one event is a copy of another.
pub open spec fn is_event_copy(copy: Event, event: Event) -> bool {
    match (copy, event) {
        (Event::ChannelCreate(c), Event::ChannelCreate(e)) => is_copy(c, e),
        (Event::ChannelUpdate(c), Event::ChannelUpdate(e)) => is_copy(c, e),
        (Event::ChannelDelete(c), Event::ChannelDelete(e)) => c == e,
        (Event::MessageCreate(c), Event::MessageCreate(e)) => is_message_copy(c, e),
        (Event::MessageUpdate(c), Event::MessageUpdate(e)) => is_update_copy(c, e),
        (Event::RoleCreate(c), Event::RoleCreate(e)) => c == e,
        (Event::RoleUpdate(c), Event::RoleUpdate(e)) => c == e,
        (Event::RoleDelete(c), Event::RoleDelete(e)) => c == e,
        (Event::ThreadCreate(c), Event::ThreadCreate(e)) => is_copy(c, e),
        (Event::ThreadUpdate(c), Event::ThreadUpdate(e)) => is_copy(c, e),
        (Event::ThreadDelete(c), Event::ThreadDelete(e)) => c == e,
        (Event::Other, Event::Other) => true,
        _ => false,
    }
}

impl Clone for Event {
    fn clone(&self) -> (copy: Self)
        ensures
            is_event_copy(copy, *self),
    {
        match self {
            Event::ChannelCreate(channel) => Event::ChannelCreate(channel.clone()),
            Event::ChannelUpdate(channel) => Event::ChannelUpdate(channel.clone()),
            Event::ChannelDelete(id) => Event::ChannelDelete(*id),
            Event::MessageCreate(message) => Event::MessageCreate(message.clone()),
            Event::MessageUpdate(update) => Event::MessageUpdate(update.clone()),
            Event::RoleCreate(role) => Event::RoleCreate(role.clone()),
            Event::RoleUpdate(role) => Event::RoleUpdate(role.clone()),
            Event::RoleDelete(id) => Event::RoleDelete(*id),
            Event::ThreadCreate(thread) => Event::ThreadCreate(thread.clone()),
            Event::ThreadUpdate(thread) => Event::ThreadUpdate(thread.clone()),
            Event::ThreadDelete(id) => Event::ThreadDelete(*id),
            Event::Other => Event::Other,
        }
    }
}

// ---------------------------------------------------------------------------
// One event, one mirror
// ---------------------------------------------------------------------------

/// What an event leads to.
pub enum EventTask {
    ChannelCreate(MirrorNewChannel),
    ChannelUpdate(RelayChannelUpdate),
    Delete(RelayDelete),
    MessageCreate(MirrorMessage),
    MessageUpdate(RelayEdit),
    RoleCreate(MirrorNewRole),
    RoleUpdate(RelayRoleUpdate),
    ThreadCreate(MirrorNewThread),
    ThreadUpdate(RelayThreadUpdate),
    Nothing,
    Ended,
}

/// What an event leads to in a mirror with the given settings.
pub open spec fn led_to(event: Event, settings: GuildSettings) -> EventTask {
    let (src_guild_id, dest_guild_id) = (settings.src_guild_id, settings.dest_guild_id);
    match event {
        Event::ChannelCreate(channel) => EventTask::ChannelCreate(
            MirrorNewChannel {
                src_guild_id,
                dest_guild_id,
                stage: NewChannelStage::Begin(channel),
            },
        ),
        Event::ChannelUpdate(channel) => EventTask::ChannelUpdate(
            RelayChannelUpdate {
                relay_updates: settings.relay_updates,
                stage: ChannelUpdateStage::Begin(channel),
            },
        ),
        Event::ChannelDelete(id) | Event::ThreadDelete(id) => EventTask::Delete(
            RelayDelete {
                deleted: Deletion::Channel(id),
                dest_guild_id,
                relay_deletes: settings.relay_deletes,
                stage: DeleteStage::Begin,
            },
        ),
        Event::MessageCreate(message) => EventTask::MessageCreate(
            MirrorMessage {
                src_guild_id,
                dest_guild_id,
                webhook_username: settings.webhook_username,
                use_webhook_profile: settings.message_settings.use_webhook_profile,
                attach: settings.message_settings.remove_attachments,
                ignore: ignored(settings, message),
                stage: MessageStage::Begin(message),
            },
        ),
        Event::MessageUpdate(update) => EventTask::MessageUpdate(
            RelayEdit {
                dest_guild_id,
                webhook_username: settings.webhook_username,
                use_webhook_profile: settings.message_settings.use_webhook_profile,
                stage: EditStage::Begin(update),
            },
        ),
        Event::RoleCreate(role) => EventTask::RoleCreate(
            MirrorNewRole {
                src_guild_id,
                dest_guild_id,
                clone_roles: settings.clone_roles,
                stage: NewRoleStage::Begin(role),
            },
        ),
        Event::RoleUpdate(role) => EventTask::RoleUpdate(
            RelayRoleUpdate {
                dest_guild_id,
                relay_updates: settings.relay_updates,
                stage: RoleUpdateStage::Begin(role),
            },
        ),
        Event::RoleDelete(id) => EventTask::Delete(
            RelayDelete {
                deleted: Deletion::Role(id),
                dest_guild_id,
                relay_deletes: settings.relay_deletes,
                stage: DeleteStage::Begin,
            },
        ),
        Event::ThreadCreate(thread) => EventTask::ThreadCreate(
            MirrorNewThread {
                src_guild_id,
                dest_guild_id,
                parent_id: open_parent(settings.blacklists@, thread),
                stage: NewThreadStage::Begin(thread),
            },
        ),
        Event::ThreadUpdate(thread) => EventTask::ThreadUpdate(
            RelayThreadUpdate {
                relay: settings.relay_updates && open_parent(settings.blacklists@, thread) is Some,
                stage: ThreadUpdateStage::Begin(thread),
            },
        ),
        Event::Other => EventTask::Nothing,
    }
}

/// What an event leads to in a mirror with the given settings.
pub fn event_task(event: Event, settings: &GuildSettings) -> (task: EventTask)
    ensures
        task == led_to(event, *settings),
        task.wf(),
        task.awaits() == Some(ReplyKind::Begin),
{
    match event {
        Event::ChannelCreate(channel) => EventTask::ChannelCreate(
            mirror_new_channel(channel, settings),
        ),
        Event::ChannelUpdate(channel) => EventTask::ChannelUpdate(
            relay_channel_update(channel, settings),
        ),
        Event::ChannelDelete(id) => EventTask::Delete(
            relay_delete(Deletion::Channel(id), settings),
        ),
        Event::MessageCreate(message) => EventTask::MessageCreate(
            mirror_message(message, settings),
        ),
        Event::MessageUpdate(update) => EventTask::MessageUpdate(relay_edit(update, settings)),
        Event::RoleCreate(role) => EventTask::RoleCreate(mirror_new_role(role, settings)),
        Event::RoleUpdate(role) => EventTask::RoleUpdate(relay_role_update(role, settings)),
        Event::RoleDelete(id) => EventTask::Delete(relay_delete(Deletion::Role(id), settings)),
        Event::ThreadCreate(thread) => EventTask::ThreadCreate(
            mirror_new_thread(thread, settings),
        ),
        Event::ThreadUpdate(thread) => EventTask::ThreadUpdate(
            relay_thread_update(thread, settings),
        ),
        Event::ThreadDelete(id) => EventTask::Delete(
            relay_delete(Deletion::Channel(id), settings),
        ),
        Event::Other => EventTask::Nothing,
    }
}

impl Task for EventTask {
    type Output = ();

    type Error = HandlerError;

    open spec fn wf(self) -> bool {
        match self {
            EventTask::ChannelCreate(task) => task.wf(),
            EventTask::ChannelUpdate(task) => task.wf(),
            EventTask::Delete(task) => task.wf(),
            EventTask::MessageCreate(task) => task.wf(),
            EventTask::MessageUpdate(task) => task.wf(),
            EventTask::RoleCreate(task) => task.wf(),
            EventTask::RoleUpdate(task) => task.wf(),
            EventTask::ThreadCreate(task) => task.wf(),
            EventTask::ThreadUpdate(task) => task.wf(),
            EventTask::Nothing => true,
            EventTask::Ended => true,
        }
    }

    open spec fn awaits(self) -> Option<ReplyKind> {
        match self {
            EventTask::ChannelCreate(task) => task.awaits(),
            EventTask::ChannelUpdate(task) => task.awaits(),
            EventTask::Delete(task) => task.awaits(),
            EventTask::MessageCreate(task) => task.awaits(),
            EventTask::MessageUpdate(task) => task.awaits(),
            EventTask::RoleCreate(task) => task.awaits(),
            EventTask::RoleUpdate(task) => task.awaits(),
            EventTask::ThreadCreate(task) => task.awaits(),
            EventTask::ThreadUpdate(task) => task.awaits(),
            EventTask::Nothing => Some(ReplyKind::Begin),
            EventTask::Ended => None,
        }
    }

    open spec fn step(
        self,
        reply: Reply,
        next: Self,
        progress: Progress<(), HandlerError>,
    ) -> bool {
        match (self, next) {
            (EventTask::ChannelCreate(task), EventTask::ChannelCreate(next)) => task.step(
                reply,
                next,
                progress,
            ),
            (EventTask::ChannelUpdate(task), EventTask::ChannelUpdate(next)) => task.step(
                reply,
                next,
                progress,
            ),
            (EventTask::Delete(task), EventTask::Delete(next)) => task.step(reply, next, progress),
            (EventTask::MessageCreate(task), EventTask::MessageCreate(next)) => task.step(
                reply,
                next,
                progress,
            ),
            (EventTask::MessageUpdate(task), EventTask::MessageUpdate(next)) => task.step(
                reply,
                next,
                progress,
            ),
            (EventTask::RoleCreate(task), EventTask::RoleCreate(next)) => task.step(
                reply,
                next,
                progress,
            ),
            (EventTask::RoleUpdate(task), EventTask::RoleUpdate(next)) => task.step(
                reply,
                next,
                progress,
            ),
            (EventTask::ThreadCreate(task), EventTask::ThreadCreate(next)) => task.step(
                reply,
                next,
                progress,
            ),
            (EventTask::ThreadUpdate(task), EventTask::ThreadUpdate(next)) => task.step(
                reply,
                next,
                progress,
            ),
            (EventTask::Nothing, EventTask::Ended) => progress.yields(()),
            _ => false,
        }
    }

    fn resume(self, reply: Reply) -> (res: (Self, Progress<(), HandlerError>)) {
        assert(self.wf());
        match self {
            EventTask::ChannelCreate(task) => {
                let (next, progress) = task.resume(reply);
                (EventTask::ChannelCreate(next), progress)
            },
            EventTask::ChannelUpdate(task) => {
                let (next, progress) = task.resume(reply);
                (EventTask::ChannelUpdate(next), progress)
            },
            EventTask::Delete(task) => {
                let (next, progress) = task.resume(reply);
                (EventTask::Delete(next), progress)
            },
            EventTask::MessageCreate(task) => {
                let (next, progress) = task.resume(reply);
                (EventTask::MessageCreate(next), progress)
            },
            EventTask::MessageUpdate(task) => {
                let (next, progress) = task.resume(reply);
                (EventTask::MessageUpdate(next), progress)
            },
            EventTask::RoleCreate(task) => {
                let (next, progress) = task.resume(reply);
                (EventTask::RoleCreate(next), progress)
            },
            EventTask::RoleUpdate(task) => {
                let (next, progress) = task.resume(reply);
                (EventTask::RoleUpdate(next), progress)
            },
            EventTask::ThreadCreate(task) => {
                let (next, progress) = task.resume(reply);
                (EventTask::ThreadCreate(next), progress)
            },
            EventTask::ThreadUpdate(task) => {
                let (next, progress) = task.resume(reply);
                (EventTask::ThreadUpdate(next), progress)
            },
            EventTask::Nothing => (EventTask::Ended, Progress::Done(())),
            EventTask::Ended => vstd::pervasive::unreached(),
        }
    }
}

/// How far the handling has come.
#[derive(Clone, Copy, Debug, PartialEq, Eq, Structural)]
pub enum SingleStage {
    Begin,
    Connecting,
    Running,
    Ended,
}

/// Handles an event for one mirror: takes a connection to the database, and does what the
/// event leads to.
pub struct HandleSingleEvent {
    pub task: EventTask,
    pub stage: SingleStage,
}

/// Begins to handle an event for one mirror.
pub fn handle_single_event(event: Event, settings: &GuildSettings) -> (task: HandleSingleEvent)
    ensures
        task.wf(),
        task == (HandleSingleEvent { task: led_to(event, *settings), stage: SingleStage::Begin }),
{
    HandleSingleEvent { task: event_task(event, settings), stage: SingleStage::Begin }
}

impl HandleSingleEvent {
    /// The same handling, at another stage.
    pub open spec fn at(self, stage: SingleStage) -> HandleSingleEvent {
        HandleSingleEvent { stage, ..self }
    }

    /// What follows from a step of what the event leads to.
    pub open spec fn runs(
        self,
        reply: Reply,
        next: Self,
        progress: Progress<(), HandlerError>,
    ) -> bool {
        &&& self.task.step(reply, next.task, progress)
        &&& next.stage == (if progress is Perform {
            SingleStage::Running
        } else {
            SingleStage::Ended
        })
    }

    fn run(self, reply: Reply) -> (res: (Self, Progress<(), HandlerError>))
        requires
            self.task.wf(),
            self.task.awaits() is Some,
            reply.answers(self.task.awaits()->0),
        ensures
            self.runs(reply, res.0, res.1),
            res.0.wf(),
            res.1.leaves(res.0.awaits()),
    {
        let (task, progress) = self.task.resume(reply);
        let stage = match &progress {
            Progress::Perform(_) => SingleStage::Running,
            _ => SingleStage::Ended,
        };
        (HandleSingleEvent { task, stage }, progress)
    }
}

impl Task for HandleSingleEvent {
    type Output = ();

    type Error = HandlerError;

    open spec fn wf(self) -> bool {
        &&& self.task.wf()
        &&& self.stage is Begin || self.stage is Connecting ==> self.task.awaits() == Some(
            ReplyKind::Begin,
        )
    }

    open spec fn awaits(self) -> Option<ReplyKind> {
        match self.stage {
            SingleStage::Begin => Some(ReplyKind::Begin),
            SingleStage::Connecting => Some(ReplyKind::Done),
            SingleStage::Running => self.task.awaits(),
            SingleStage::Ended => None,
        }
    }

    open spec fn step(
        self,
        reply: Reply,
        next: Self,
        progress: Progress<(), HandlerError>,
    ) -> bool {
        match (self.stage, reply) {
            (SingleStage::Running, _) => self.runs(reply, next, progress),
            (SingleStage::Begin, Reply::Begin) => next == self.at(SingleStage::Connecting)
                && progress.performs(Action::Connect),
            (SingleStage::Connecting, Reply::Done) => self.runs(Reply::Begin, next, progress),
            (SingleStage::Connecting, Reply::Failed(failure)) => {
                &&& next == self.at(SingleStage::Ended)
                &&& progress.fails(HandlerError::of(failure))
            },
            _ => false,
        }
    }

    fn resume(self, reply: Reply) -> (res: (Self, Progress<(), HandlerError>)) {
        assert(self.wf());
        match (self.stage, reply) {
            (SingleStage::Running, reply) => self.run(reply),
            (SingleStage::Begin, Reply::Begin) => (
                HandleSingleEvent { stage: SingleStage::Connecting, ..self },
                Progress::Perform(Action::Connect),
            ),
            (SingleStage::Connecting, Reply::Done) => self.run(Reply::Begin),
            (SingleStage::Connecting, Reply::Failed(failure)) => (
                HandleSingleEvent { stage: SingleStage::Ended, ..self },
                Progress::Failed(HandlerError::from_failure(failure)),
            ),
            _ => vstd::pervasive::unreached(),
        }
    }
}

// ---------------------------------------------------------------------------
// One event, all mirrors
// ---------------------------------------------------------------------------

/// The mirrors of a guild, in the order in which they are configured. An event that comes
/// from no guild concerns none.
pub open spec fn mirrors_of(guild_id: Option<u64>, config: Seq<GuildSettings>) -> Seq<
    GuildSettings,
> {
    match guild_id {
        Some(guild_id) => config.filter(
            |settings: GuildSettings| settings.src_guild_id == guild_id,
        ),
        None => Seq::empty(),
    }
}

/// An event reaches every mirror of its guild, and none of another guild.
pub proof fn events_reach_their_mirrors(
    guild_id: u64,
    config: Seq<GuildSettings>,
    settings: GuildSettings,
)
    ensures
        mirrors_of(Some(guild_id), config).contains(settings) <==> config.contains(settings)
            && settings.src_guild_id == guild_id,
    decreases config.len(),
{
    let reached = |settings: GuildSettings| settings.src_guild_id == guild_id;
    let mirrors = mirrors_of(Some(guild_id), config);
    reveal(Seq::filter);
    if config.len() > 0 {
        let before = config.drop_last();
        events_reach_their_mirrors(guild_id, before, settings);
        let before_mirrors = mirrors_of(Some(guild_id), before);
        if before.contains(settings) {
            let i = choose|i: int| 0 <= i < before.len() && before[i] == settings;
            assert(config[i] == settings);
        }
        if before_mirrors.contains(settings) {
            let i = choose|i: int| 0 <= i < before_mirrors.len() && before_mirrors[i] == settings;
            assert(mirrors[i] == settings);
        }
        if reached(config.last()) {
            assert(mirrors[before_mirrors.len() as int] == config.last());
        }
        if config.contains(settings) && settings != config.last() {
            let i = choose|i: int| 0 <= i < config.len() && config[i] == settings;
            assert(before[i] == settings);
        }
        if mirrors.contains(settings) {
            let i = choose|i: int| 0 <= i < mirrors.len() && mirrors[i] == settings;
            if i < before_mirrors.len() {
                assert(before_mirrors[i] == settings);
            } else {
                assert(config[config.len() - 1] == settings);
            }
        }
    }
}

/// Whether this is the handling of an event for one mirror at its beginning.
pub open spec fn handles(single: HandleSingleEvent, event: Event, settings: GuildSettings) -> bool {
    exists|copy: Event|
        #![trigger is_event_copy(copy, event)]
        is_event_copy(copy, event) && single == (HandleSingleEvent {
            task: led_to(copy, settings),
            stage: SingleStage::Begin,
        })
}

/// How far the handling has come.
pub enum EventStage {
    Begin { pending: Vec<HandleSingleEvent> },
    Running { pending: Vec<HandleSingleEvent>, single: HandleSingleEvent },
    Ended,
}

/// Handles an event for every mirror of its guild, one after the other, up to the first for
/// which that fails.
pub struct HandleEvent {
    pub stage: EventStage,
}

/// Whether all of these are the handling of an event at its beginning.
pub open spec fn all_begin(pending: Seq<HandleSingleEvent>) -> bool {
    forall|i: int|
        0 <= i < pending.len() ==> (#[trigger] pending[i]).wf() && pending[i].stage is Begin
}

/// Begins to handle an event that comes from the given guild.
pub fn handle_event(
    guild_id: Option<u64>,
    event: &Event,
    config: &Vec<GuildSettings>,
) -> (task: HandleEvent)
    ensures
        task.wf(),
        task.handles_event(guild_id, *event, config@),
{
    let mut pending: Vec<HandleSingleEvent> = Vec::new();
    if let Some(id) = guild_id {
        let ghost reached = |settings: GuildSettings| settings.src_guild_id == id;
        proof {
            reveal(Seq::filter);
            assert(config@.take(0) =~= Seq::<GuildSettings>::empty());
        }
        for i in 0..config.len()
            invariant
                reached == (|settings: GuildSettings| settings.src_guild_id == id),
                all_begin(pending@),
                pending@.len() == config@.take(i as int).filter(reached).len(),
                forall|j: int|
                    0 <= j < pending@.len() ==> handles(
                        #[trigger] pending@[j],
                        *event,
                        config@.take(i as int).filter(reached)[j],
                    ),
        {
            proof {
                reveal(Seq::filter);
                assert(config@.take(i + 1).drop_last() =~= config@.take(i as int));
                assert(config@.take(i + 1).last() == config@[i as int]);
            }
            if config[i].src_guild_id == id {
                let copy = event.clone();
                pending.push(handle_single_event(copy, &config[i]));
            }
        }
        assert(config@.take(config@.len() as int) =~= config@);
    }
    HandleEvent { stage: EventStage::Begin { pending } }
}

impl HandleEvent {
    /// Whether this is the handling of an event at its beginning.
    pub open spec fn handles_event(
        self,
        guild_id: Option<u64>,
        event: Event,
        config: Seq<GuildSettings>,
    ) -> bool {
        let mirrors = mirrors_of(guild_id, config);
        &&& self.stage matches EventStage::Begin { pending }
        &&& pending@.len() == mirrors.len()
        &&& forall|i: int|
            0 <= i < pending@.len() ==> handles(#[trigger] pending@[i], event, mirrors[i])
    }

    /// What follows while these are left.
    pub open spec fn continues(
        pending: Seq<HandleSingleEvent>,
        next: Self,
        progress: Progress<(), HandlerError>,
    ) -> bool {
        if pending.len() == 0 {
            next.stage is Ended && progress.yields(())
        } else {
            &&& next.stage matches EventStage::Running { pending: left, single }
            &&& left@ == pending.drop_first()
            &&& single == pending[0].at(SingleStage::Connecting)
            &&& progress.performs(Action::Connect)
        }
    }

    /// What follows from a step of the handling for one mirror.
    pub open spec fn after_single(
        pending: Vec<HandleSingleEvent>,
        single: HandleSingleEvent,
        handled: Progress<(), HandlerError>,
        next: Self,
        progress: Progress<(), HandlerError>,
    ) -> bool {
        match handled {
            Progress::Perform(action) => {
                &&& next.stage == (EventStage::Running { pending, single })
                &&& progress.performs(action)
            },
            Progress::Failed(error) => next.stage is Ended && progress.fails(error),
            Progress::Done(()) => Self::continues(pending@, next, progress),
        }
    }

    fn proceed(pending: Vec<HandleSingleEvent>) -> (res: (Self, Progress<(), HandlerError>))
        requires
            all_begin(pending@),
        ensures
            Self::continues(pending@, res.0, res.1),
            res.0.wf(),
            res.1.leaves(res.0.awaits()),
    {
        let mut pending = pending;
        if pending.len() == 0 {
            return (HandleEvent { stage: EventStage::Ended }, Progress::Done(()));
        }
        let ghost before = pending@;
        let single = pending.remove(0);
        assert(pending@ =~= before.drop_first());
        assert(all_begin(pending@));
        assert(before[0].wf());
        let (single, progress) = single.resume(Reply::Begin);
        (HandleEvent { stage: EventStage::Running { pending, single } }, progress)
    }
}

impl Task for HandleEvent {
    type Output = ();

    type Error = HandlerError;

    open spec fn wf(self) -> bool {
        match self.stage {
            EventStage::Begin { pending } => all_begin(pending@),
            EventStage::Running { pending, single } => all_begin(pending@) && single.wf(),
            EventStage::Ended => true,
        }
    }

    open spec fn awaits(self) -> Option<ReplyKind> {
        match self.stage {
            EventStage::Begin { .. } => Some(ReplyKind::Begin),
            EventStage::Running { single, .. } => single.awaits(),
            EventStage::Ended => None,
        }
    }

    open spec fn step(
        self,
        reply: Reply,
        next: Self,
        progress: Progress<(), HandlerError>,
    ) -> bool {
        match (self.stage, reply) {
            (EventStage::Begin { pending }, Reply::Begin) => Self::continues(
                pending@,
                next,
                progress,
            ),
            (EventStage::Running { pending, single: task }, _) => exists|
                single: HandleSingleEvent,
                handled,
            |
                #![trigger task.step(reply, single, handled)]
                {
                    &&& task.step(reply, single, handled)
                    &&& Self::after_single(pending, single, handled, next, progress)
                },
            _ => false,
        }
    }

    fn resume(self, reply: Reply) -> (res: (Self, Progress<(), HandlerError>)) {
        assert(self.wf());
        match (self.stage, reply) {
            (EventStage::Begin { pending }, Reply::Begin) => Self::proceed(pending),
            (EventStage::Running { pending, single }, reply) => {
                let (single, handled) = single.resume(reply);
                match handled {
                    Progress::Perform(action) => {
                        let stage = EventStage::Running { pending, single };
                        (HandleEvent { stage }, Progress::Perform(action))
                    },
                    Progress::Failed(error) => (
                        HandleEvent { stage: EventStage::Ended },
                        Progress::Failed(error),
                    ),
                    Progress::Done(()) => Self::proceed(pending),
                }
            },
            _ => vstd::pervasive::unreached(),
        }
    }
}

} // verus!
