//! What a new or a changed thread leads to.
use crate::blacklist::{holds_entry, Blacklist};
use crate::config::GuildSettings;
use crate::errors::HandlerError;
use crate::handlers::thread::{create_thread, creates_thread};
use crate::model::{record, recorded, Channel, IdMapping, MappingData};
use crate::operation::{destination, Action, Progress, Reply, ReplyKind, Task, ThreadChange};
use crate::text::copy_text;
use crate::validation::{check_name, optional_name_refusal};
use vstd::prelude::*;

verus! {

/// The channel below which a thread is mirrored: its parent, unless that is blacklisted.
pub open spec fn open_parent(blacklists: Seq<Blacklist>, thread: Channel) -> Option<u64> {
    match thread.parent_id {
        Some(parent_id) if !blacklists.contains(Blacklist::Channel(parent_id)) => Some(parent_id),
        _ => None,
    }
}

/// The channel below which a thread is mirrored.
pub fn find_open_parent(blacklists: &Vec<Blacklist>, thread: &Channel) -> (parent_id: Option<u64>)
    ensures
        parent_id == open_parent(blacklists@, *thread),
{
    match thread.parent_id {
        Some(parent_id) if !holds_entry(blacklists, Blacklist::Channel(parent_id)) => Some(
            parent_id,
        ),
        _ => None,
    }
}

// ---------------------------------------------------------------------------
// A new thread
// ---------------------------------------------------------------------------

/// How far the mirroring has come.
pub enum NewThreadStage {
    Begin(Channel),
    Finding { thread: Channel, parent_id: u64 },
    Joining { thread: Channel, parent_id: u64 },
    FindingParent(Channel),
    GettingParent(Channel),
    Creating(Channel),
    Registering,
    Ended,
}

/// Joins a thread that was created, mirrors it and registers it, unless it is registered
/// already.
pub struct MirrorNewThread {
    pub src_guild_id: u64,
    pub dest_guild_id: u64,
    /// The channel below which the thread is mirrored.
    pub parent_id: Option<u64>,
    pub stage: NewThreadStage,
}

/// Begins to mirror a thread that was created.
pub fn mirror_new_thread(thread: Channel, settings: &GuildSettings) -> (task: MirrorNewThread)
    ensures
        task.wf(),
        task == (MirrorNewThread {
            src_guild_id: settings.src_guild_id,
            dest_guild_id: settings.dest_guild_id,
            parent_id: open_parent(settings.blacklists@, thread),
            stage: NewThreadStage::Begin(thread),
        }),
{
    MirrorNewThread {
        src_guild_id: settings.src_guild_id,
        dest_guild_id: settings.dest_guild_id,
        parent_id: find_open_parent(&settings.blacklists, &thread),
        stage: NewThreadStage::Begin(thread),
    }
}

impl MirrorNewThread {
    /// The same mirroring, at another stage.
    pub open spec fn at(self, stage: NewThreadStage) -> MirrorNewThread {
        MirrorNewThread { stage, ..self }
    }
}

impl Task for MirrorNewThread {
    type Output = ();

    type Error = HandlerError;

    open spec fn wf(self) -> bool {
        true
    }

    open spec fn awaits(self) -> Option<ReplyKind> {
        match self.stage {
            NewThreadStage::Begin(_) => Some(ReplyKind::Begin),
            NewThreadStage::Finding { .. } => Some(ReplyKind::Record),
            NewThreadStage::Joining { .. } => Some(ReplyKind::Done),
            NewThreadStage::FindingParent(_) => Some(ReplyKind::Mapping),
            NewThreadStage::GettingParent(_) => Some(ReplyKind::Channel),
            NewThreadStage::Creating(_) => Some(ReplyKind::Thread),
            NewThreadStage::Registering => Some(ReplyKind::Done),
            NewThreadStage::Ended => None,
        }
    }

    open spec fn step(
        self,
        reply: Reply,
        next: Self,
        progress: Progress<(), HandlerError>,
    ) -> bool {
        let ended = self.at(NewThreadStage::Ended);
        match (self.stage, reply) {
            (_, Reply::Failed(failure)) => next == ended && progress.fails(
                HandlerError::of(failure),
            ),
            (NewThreadStage::Begin(thread), Reply::Begin) => match self.parent_id {
                Some(parent_id) => {
                    &&& next == self.at(NewThreadStage::Finding { thread, parent_id })
                    &&& progress.performs(Action::FindMapping { orig_id: thread.id })
                },
                None => next == ended && progress.yields(()),
            },
            (NewThreadStage::Finding { thread, parent_id }, Reply::Mapping(None)) => {
                &&& next == self.at(NewThreadStage::Joining { thread, parent_id })
                &&& progress.performs(Action::JoinThread(thread.id))
            },
            (NewThreadStage::Finding { .. }, Reply::Mapping(Some(_))) => next == ended
                && progress.yields(()),
            (NewThreadStage::Joining { thread, parent_id }, Reply::Done) => {
                &&& next == self.at(NewThreadStage::FindingParent(thread))
                &&& progress.performs(Action::GetMapping { orig_id: parent_id })
            },
            (NewThreadStage::FindingParent(thread), Reply::Mapping(found)) => match destination(
                found,
            ) {
                Some(dest_parent_id) => {
                    &&& next == self.at(NewThreadStage::GettingParent(thread))
                    &&& progress.performs(Action::GetChannel(dest_parent_id))
                },
                None => next == ended && progress.yields(()),
            },
            (
                NewThreadStage::GettingParent(thread),
                Reply::Channel(dest_parent),
            ) => match thread.name {
                Some(name) => {
                    &&& next == self.at(
                        if progress is Perform {
                            NewThreadStage::Creating(thread)
                        } else {
                            NewThreadStage::Ended
                        },
                    )
                    &&& progress.outcome() matches Some(outcome)
                    &&& creates_thread(outcome, thread, dest_parent.spec_place(), None, name)
                },
                None => next == ended && progress.yields(()),
            },
            (NewThreadStage::Creating(thread), Reply::Thread(dest_thread)) => match recorded(
                (thread.id, MappingData::Channel(thread)),
                (dest_thread.id, MappingData::Channel(dest_thread)),
                self.src_guild_id,
                self.dest_guild_id,
            ) {
                Ok(mapping) => {
                    &&& next == self.at(NewThreadStage::Registering)
                    &&& progress.registers(mapping)
                },
                Err(error) => next == ended && progress.fails(HandlerError::Database(error)),
            },
            (NewThreadStage::Registering, Reply::Done) => next == ended && progress.yields(()),
            _ => false,
        }
    }

    fn resume(self, reply: Reply) -> (res: (Self, Progress<(), HandlerError>)) {
        let MirrorNewThread { src_guild_id, dest_guild_id, parent_id, stage } = self;
        let ended = MirrorNewThread {
            src_guild_id,
            dest_guild_id,
            parent_id,
            stage: NewThreadStage::Ended,
        };
        match (stage, reply) {
            (_, Reply::Failed(failure)) => (
                ended,
                Progress::Failed(HandlerError::from_failure(failure)),
            ),
            (NewThreadStage::Begin(thread), Reply::Begin) => {
                let Some(parent_id) = parent_id else {
                    return (ended, Progress::Done(()));
                };
                let action = Action::FindMapping { orig_id: thread.id };
                let stage = NewThreadStage::Finding { thread, parent_id };
                (MirrorNewThread { stage, ..ended }, Progress::Perform(action))
            },
            (NewThreadStage::Finding { thread, parent_id }, Reply::Mapping(found)) => {
                if found.is_some() {
                    return (ended, Progress::Done(()));
                }
                let action = Action::JoinThread(thread.id);
                let stage = NewThreadStage::Joining { thread, parent_id };
                (MirrorNewThread { stage, ..ended }, Progress::Perform(action))
            },
            (NewThreadStage::Joining { thread, parent_id }, Reply::Done) => (
                MirrorNewThread { stage: NewThreadStage::FindingParent(thread), ..ended },
                Progress::Perform(Action::GetMapping { orig_id: parent_id }),
            ),
            (NewThreadStage::FindingParent(thread), Reply::Mapping(found)) => {
                let Some(mapping) = found else {
                    return (ended, Progress::Done(()));
                };
                (
                    MirrorNewThread { stage: NewThreadStage::GettingParent(thread), ..ended },
                    Progress::Perform(Action::GetChannel(mapping.ref_id())),
                )
            },
            (NewThreadStage::GettingParent(thread), Reply::Channel(dest_parent)) => {
                match &thread.name {
                    Some(name) => {
                        let name = name.clone();
                        match create_thread(&thread, dest_parent.place(), None, name) {
                            Ok(action) => {
                                let stage = NewThreadStage::Creating(thread);
                                (MirrorNewThread { stage, ..ended }, Progress::Perform(action))
                            },
                            Err(error) => (ended, Progress::Failed(error)),
                        }
                    },
                    None => (ended, Progress::Done(())),
                }
            },
            (NewThreadStage::Creating(thread), Reply::Thread(dest_thread)) => {
                let src = (thread.id, MappingData::Channel(thread));
                let dest = (dest_thread.id, MappingData::Channel(dest_thread));
                match record(src, dest, src_guild_id, dest_guild_id) {
                    Ok(mapping) => (
                        MirrorNewThread { stage: NewThreadStage::Registering, ..ended },
                        Progress::Perform(Action::RegisterMapping(mapping)),
                    ),
                    Err(error) => (ended, Progress::Failed(HandlerError::Database(error))),
                }
            },
            (NewThreadStage::Registering, Reply::Done) => (ended, Progress::Done(())),
            _ => vstd::pervasive::unreached(),
        }
    }
}

// ---------------------------------------------------------------------------
// A changed thread
// ---------------------------------------------------------------------------

/// How far the relaying has come.
pub enum ThreadUpdateStage {
    Begin(Channel),
    Joining(Channel),
    Finding(Channel),
    Changing,
    Ended,
}

/// Joins a thread that is not archived, and lets its mirror follow its change.
pub struct RelayThreadUpdate {
    /// Whether the change is relayed.
    pub relay: bool,
    pub stage: ThreadUpdateStage,
}

/// Begins to relay the change of a thread. It is relayed where changes are, unless the
/// thread has no parent or the parent is blacklisted.
pub fn relay_thread_update(thread: Channel, settings: &GuildSettings) -> (task: RelayThreadUpdate)
    ensures
        task.wf(),
        task == (RelayThreadUpdate {
            relay: settings.relay_updates && open_parent(settings.blacklists@, thread) is Some,
            stage: ThreadUpdateStage::Begin(thread),
        }),
{
    let relay = settings.relay_updates && find_open_parent(
        &settings.blacklists,
        &thread,
    ).is_some();
    RelayThreadUpdate { relay, stage: ThreadUpdateStage::Begin(thread) }
}

/// The request that lets a mirror follow a thread. What the thread does not tell stays.
pub open spec fn thread_change(thread: Channel, dest_thread_id: u64) -> ThreadChange {
    ThreadChange {
        thread_id: dest_thread_id,
        name: thread.name,
        invitable: thread.invitable,
        auto_archive_duration: thread.default_auto_archive_duration,
    }
}

impl RelayThreadUpdate {
    /// The same relaying, at another stage.
    pub open spec fn at(self, stage: ThreadUpdateStage) -> RelayThreadUpdate {
        RelayThreadUpdate { stage, ..self }
    }

    /// What follows once the thread has been joined where it should be.
    pub open spec fn relays(
        self,
        thread: Channel,
        next: Self,
        progress: Progress<(), HandlerError>,
    ) -> bool {
        if self.relay {
            &&& next == self.at(ThreadUpdateStage::Finding(thread))
            &&& progress.performs(Action::GetMapping { orig_id: thread.id })
        } else {
            next == self.at(ThreadUpdateStage::Ended) && progress.yields(())
        }
    }

    fn relay(self, thread: Channel) -> (res: (Self, Progress<(), HandlerError>))
        ensures
            self.relays(thread, res.0, res.1),
            res.1.leaves(res.0.awaits()),
    {
        if self.relay {
            let action = Action::GetMapping { orig_id: thread.id };
            (
                RelayThreadUpdate { stage: ThreadUpdateStage::Finding(thread), ..self },
                Progress::Perform(action),
            )
        } else {
            (RelayThreadUpdate { stage: ThreadUpdateStage::Ended, ..self }, Progress::Done(()))
        }
    }
}

impl Task for RelayThreadUpdate {
    type Output = ();

    type Error = HandlerError;

    open spec fn wf(self) -> bool {
        true
    }

    open spec fn awaits(self) -> Option<ReplyKind> {
        match self.stage {
            ThreadUpdateStage::Begin(_) => Some(ReplyKind::Begin),
            ThreadUpdateStage::Joining(_) => Some(ReplyKind::Done),
            ThreadUpdateStage::Finding(_) => Some(ReplyKind::Mapping),
            ThreadUpdateStage::Changing => Some(ReplyKind::Done),
            ThreadUpdateStage::Ended => None,
        }
    }

    open spec fn step(
        self,
        reply: Reply,
        next: Self,
        progress: Progress<(), HandlerError>,
    ) -> bool {
        let ended = self.at(ThreadUpdateStage::Ended);
        match (self.stage, reply) {
            (_, Reply::Failed(failure)) => next == ended && progress.fails(
                HandlerError::of(failure),
            ),
            (ThreadUpdateStage::Begin(thread), Reply::Begin) => if thread.archived == Some(false) {
                &&& next == self.at(ThreadUpdateStage::Joining(thread))
                &&& progress.performs(Action::JoinThread(thread.id))
            } else {
                ended.relays(thread, next, progress)
            },
            (ThreadUpdateStage::Joining(thread), Reply::Done) => ended.relays(
                thread,
                next,
                progress,
            ),
            (ThreadUpdateStage::Finding(thread), Reply::Mapping(found)) => match destination(
                found,
            ) {
                Some(dest_thread_id) => match optional_name_refusal(thread.name) {
                    Some(reason) => next == ended && progress.refuses_channel(reason),
                    None => {
                        &&& next == self.at(ThreadUpdateStage::Changing)
                        &&& progress.performs(
                            Action::ChangeThread(thread_change(thread, dest_thread_id)),
                        )
                    },
                },
                None => next == ended && progress.yields(()),
            },
            (ThreadUpdateStage::Changing, Reply::Done) => next == ended && progress.yields(()),
            _ => false,
        }
    }

    fn resume(self, reply: Reply) -> (res: (Self, Progress<(), HandlerError>)) {
        let RelayThreadUpdate { relay, stage } = self;
        let ended = RelayThreadUpdate { relay, stage: ThreadUpdateStage::Ended };
        match (stage, reply) {
            (_, Reply::Failed(failure)) => (
                ended,
                Progress::Failed(HandlerError::from_failure(failure)),
            ),
            (ThreadUpdateStage::Begin(thread), Reply::Begin) => {
                match thread.archived {
                    Some(false) => {
                        let action = Action::JoinThread(thread.id);
                        (
                            RelayThreadUpdate {
                                stage: ThreadUpdateStage::Joining(thread),
                                ..ended
                            },
                            Progress::Perform(action),
                        )
                    },
                    _ => ended.relay(thread),
                }
            },
            (ThreadUpdateStage::Joining(thread), Reply::Done) => ended.relay(thread),
            (ThreadUpdateStage::Finding(thread), Reply::Mapping(found)) => {
                let Some(mapping) = found else {
                    return (ended, Progress::Done(()));
                };
                if let Err(reason) = check_name(&thread.name) {
                    return (
                        ended,
                        Progress::Failed(HandlerError::ClientChannelValidation(reason)),
                    );
                }
                let change = ThreadChange {
                    thread_id: mapping.ref_id(),
                    name: copy_text(&thread.name),
                    invitable: thread.invitable,
                    auto_archive_duration: thread.default_auto_archive_duration,
                };
                (
                    RelayThreadUpdate { stage: ThreadUpdateStage::Changing, ..ended },
                    Progress::Perform(Action::ChangeThread(change)),
                )
            },
            (ThreadUpdateStage::Changing, Reply::Done) => (ended, Progress::Done(())),
            _ => vstd::pervasive::unreached(),
        }
    }
}

/// A thread below a blacklisted channel, or below none, leads to no operation at all.
pub proof fn barred_thread_does_nothing(
    task: MirrorNewThread,
    next: MirrorNewThread,
    progress: Progress<(), HandlerError>,
)
    requires
        task.parent_id is None,
        task.stage is Begin,
        task.step(Reply::Begin, next, progress),
    ensures
        progress.yields(()),
        next.awaits() is None,
{
}

/// A thread that is registered already is not mirrored again.
pub proof fn registered_thread_is_left_alone(
    task: MirrorNewThread,
    mapping: IdMapping,
    next: MirrorNewThread,
    progress: Progress<(), HandlerError>,
)
    requires
        task.stage is Finding,
        task.step(Reply::Mapping(Some(mapping)), next, progress),
    ensures
        progress.yields(()),
        next.awaits() is None,
{
}

/// An archived thread is not joined when it changes.
pub proof fn archived_thread_is_not_joined(
    task: RelayThreadUpdate,
    reply: Reply,
    next: RelayThreadUpdate,
    progress: Progress<(), HandlerError>,
    id: u64,
)
    requires
        task.step(reply, next, progress),
        progress.performs(Action::JoinThread(id)),
    ensures
        task.stage matches ThreadUpdateStage::Begin(thread) && thread.archived == Some(false)
            && thread.id == id,
{
}

} // verus!
