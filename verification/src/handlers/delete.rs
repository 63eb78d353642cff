//! What the deletion of a channel, a thread or a role leads to.
use crate::config::GuildSettings;
use crate::errors::HandlerError;
use crate::model::IdMapping;
use crate::operation::{
    destination, is_run, runs_end, Action, Progress, Reply, ReplyKind, Task,
};
use crate::util::remove::Deletion;
use vstd::prelude::*;

verus! {

/// How far the relaying has come.
#[derive(Clone, Copy, Debug, PartialEq, Eq, Structural)]
pub enum DeleteStage {
    Begin,
    Finding,
    /// What the mapping leads to is told where it is to be deleted.
    Unregistering { dest_id: Option<u64> },
    Deleting,
    Ended,
}

/// Unregisters what was deleted, and deletes its mirror where deletions are relayed.
pub struct RelayDelete {
    pub deleted: Deletion,
    pub dest_guild_id: u64,
    pub relay_deletes: bool,
    pub stage: DeleteStage,
}

/// Begins to relay a deletion.
pub fn relay_delete(deleted: Deletion, settings: &GuildSettings) -> (task: RelayDelete)
    ensures
        task.wf(),
        task == (RelayDelete {
            deleted,
            dest_guild_id: settings.dest_guild_id,
            relay_deletes: settings.relay_deletes,
            stage: DeleteStage::Begin,
        }),
{
    RelayDelete {
        deleted,
        dest_guild_id: settings.dest_guild_id,
        relay_deletes: settings.relay_deletes,
        stage: DeleteStage::Begin,
    }
}

impl RelayDelete {
    /// The same relaying, at another stage.
    pub open spec fn at(self, stage: DeleteStage) -> RelayDelete {
        RelayDelete { stage, ..self }
    }
}

impl Task for RelayDelete {
    type Output = ();

    type Error = HandlerError;

    open spec fn wf(self) -> bool {
        true
    }

    open spec fn awaits(self) -> Option<ReplyKind> {
        match self.stage {
            DeleteStage::Begin => Some(ReplyKind::Begin),
            DeleteStage::Finding => Some(
                if self.relay_deletes {
                    ReplyKind::Mapping
                } else {
                    ReplyKind::Record
                },
            ),
            DeleteStage::Unregistering { .. } => Some(ReplyKind::Done),
            DeleteStage::Deleting => Some(ReplyKind::Done),
            DeleteStage::Ended => None,
        }
    }

    open spec fn step(
        self,
        reply: Reply,
        next: Self,
        progress: Progress<(), HandlerError>,
    ) -> bool {
        let ended = self.at(DeleteStage::Ended);
        match (self.stage, reply) {
            (_, Reply::Failed(failure)) => next == ended && progress.fails(
                HandlerError::of(failure),
            ),
            (DeleteStage::Begin, Reply::Begin) => {
                &&& next == self.at(DeleteStage::Finding)
                &&& progress.performs(
                    if self.relay_deletes {
                        Action::GetMapping { orig_id: self.deleted.spec_id() }
                    } else {
                        Action::FindMapping { orig_id: self.deleted.spec_id() }
                    },
                )
            },
            (DeleteStage::Finding, Reply::Mapping(Some(mapping))) => {
                &&& next == self.at(
                    DeleteStage::Unregistering {
                        dest_id: if self.relay_deletes {
                            destination(Some(mapping))
                        } else {
                            None
                        },
                    },
                )
                &&& progress.unregisters(mapping@)
            },
            (DeleteStage::Finding, Reply::Mapping(None)) => next == ended && progress.yields(()),
            (DeleteStage::Unregistering { dest_id }, Reply::Done) => match dest_id {
                Some(dest_id) => {
                    &&& next == self.at(DeleteStage::Deleting)
                    &&& progress.performs(
                        self.deleted.spec_with_id(dest_id).spec_action(self.dest_guild_id),
                    )
                },
                None => next == ended && progress.yields(()),
            },
            (DeleteStage::Deleting, Reply::Done) => next == ended && progress.yields(()),
            _ => false,
        }
    }

    fn resume(self, reply: Reply) -> (res: (Self, Progress<(), HandlerError>)) {
        let RelayDelete { deleted, dest_guild_id, relay_deletes, stage } = self;
        let ended = RelayDelete {
            deleted,
            dest_guild_id,
            relay_deletes,
            stage: DeleteStage::Ended,
        };
        match (stage, reply) {
            (_, Reply::Failed(failure)) => (
                ended,
                Progress::Failed(HandlerError::from_failure(failure)),
            ),
            (DeleteStage::Begin, Reply::Begin) => {
                let orig_id = deleted.id();
                let action = if relay_deletes {
                    Action::GetMapping { orig_id }
                } else {
                    Action::FindMapping { orig_id }
                };
                (RelayDelete { stage: DeleteStage::Finding, ..ended }, Progress::Perform(action))
            },
            (DeleteStage::Finding, Reply::Mapping(found)) => {
                match found {
                    Some(mapping) => {
                        let dest_id = if relay_deletes {
                            Some(mapping.ref_id())
                        } else {
                            None
                        };
                        (
                            RelayDelete { stage: DeleteStage::Unregistering { dest_id }, ..ended },
                            Progress::Perform(Action::UnregisterMapping(mapping)),
                        )
                    },
                    None => (ended, Progress::Done(())),
                }
            },
            (DeleteStage::Unregistering { dest_id }, Reply::Done) => {
                match dest_id {
                    Some(dest_id) => {
                        let action = deleted.with_id(dest_id).action(dest_guild_id);
                        (
                            RelayDelete { stage: DeleteStage::Deleting, ..ended },
                            Progress::Perform(action),
                        )
                    },
                    None => (ended, Progress::Done(())),
                }
            },
            (DeleteStage::Deleting, Reply::Done) => (ended, Progress::Done(())),
            _ => vstd::pervasive::unreached(),
        }
    }
}

/// Whether a task asks for something to be deleted.
pub open spec fn asks_to_delete(progress: Progress<(), HandlerError>) -> bool {
    progress matches Progress::Perform(action) && (action is DeleteChannel || action is DeleteRole)
}

/// A mirror is deleted only where deletions are relayed, only after its mapping was
/// unregistered, and it is the mirror of what was deleted that is.
pub proof fn deletion_follows_unregistering(
    tasks: Seq<RelayDelete>,
    replies: Seq<Reply>,
    progress: Seq<Progress<(), HandlerError>>,
    i: int,
)
    requires
        is_run(tasks, replies, progress),
        tasks[0].stage is Begin,
        0 <= i < replies.len(),
        asks_to_delete(progress[i]),
    ensures
        tasks[0].relay_deletes,
        i == 2,
        exists|mapping: IdMapping|
            {
                &&& replies[1] == Reply::Mapping(Some(mapping))
                &&& #[trigger] progress[1].unregisters(mapping@)
                &&& progress[2].performs(
                    tasks[0].deleted.spec_with_id(destination(Some(mapping))->0).spec_action(
                        tasks[0].dest_guild_id,
                    ),
                )
            },
{
    let first = replies[0];
    if replies.len() > 1 {
        let second = replies[1];
    }
    if replies.len() > 2 {
        let third = replies[2];
    }
    if replies.len() > 3 {
        let fourth = replies[3];
        runs_end(tasks, replies, progress, 3);
    }
    if let Reply::Mapping(Some(mapping)) = replies[1] {
        assert(progress[1].unregisters(mapping@));
    }
}

} // verus!
