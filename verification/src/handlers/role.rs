//! What a new or a changed role leads to.
use crate::config::GuildSettings;
use crate::errors::{HandlerError, MappingsError};
use crate::model::{keep, kept, MappingData, MappingView, Role};
use crate::operation::{destination, Action, Progress, Reply, ReplyKind, Task};
use crate::util::register::{register_roles, RegisterMappings};
use crate::util::roles::{
    create_roles, mirror_shape, mirrored_shape, CreateRoles, CreateRolesStage, RoleMap,
};
use vstd::prelude::*;

verus! {

// ---------------------------------------------------------------------------
// A new role
// ---------------------------------------------------------------------------

/// How far the mirroring has come.
pub enum NewRoleStage {
    Begin(Role),
    Creating(CreateRoles),
    Registering(RegisterMappings),
    Ended,
}

/// Mirrors a role that was created, and registers it.
pub struct MirrorNewRole {
    pub src_guild_id: u64,
    pub dest_guild_id: u64,
    pub clone_roles: bool,
    pub stage: NewRoleStage,
}

/// Begins to mirror a role that was created.
pub fn mirror_new_role(role: Role, settings: &GuildSettings) -> (task: MirrorNewRole)
    ensures
        task.wf(),
        task == (MirrorNewRole {
            src_guild_id: settings.src_guild_id,
            dest_guild_id: settings.dest_guild_id,
            clone_roles: settings.clone_roles,
            stage: NewRoleStage::Begin(role),
        }),
{
    MirrorNewRole {
        src_guild_id: settings.src_guild_id,
        dest_guild_id: settings.dest_guild_id,
        clone_roles: settings.clone_roles,
        stage: NewRoleStage::Begin(role),
    }
}

impl MirrorNewRole {
    /// The same mirroring, at another stage.
    pub open spec fn at(self, stage: NewRoleStage) -> MirrorNewRole {
        MirrorNewRole { stage, ..self }
    }

    /// What follows from a step of the creation.
    pub open spec fn after_creating(
        self,
        creating: CreateRoles,
        created: Progress<RoleMap, MappingsError>,
        next: Self,
        progress: Progress<(), HandlerError>,
    ) -> bool {
        match created {
            Progress::Perform(action) => {
                &&& next == self.at(NewRoleStage::Creating(creating))
                &&& progress.performs(action)
            },
            Progress::Failed(error) => {
                &&& next == self.at(NewRoleStage::Ended)
                &&& progress.fails(HandlerError::Mapping(error))
            },
            Progress::Done(made) => exists|
                task: RegisterMappings,
                registering: RegisterMappings,
                registered,
            |
                #![trigger task.step(Reply::Begin, registering, registered)]
                {
                    &&& task.registers_roles(made@, (self.src_guild_id, self.dest_guild_id))
                    &&& task.step(Reply::Begin, registering, registered)
                    &&& self.after_registering(registering, registered, next, progress)
                },
        }
    }

    /// What follows from a step of the registration.
    pub open spec fn after_registering(
        self,
        registering: RegisterMappings,
        registered: Progress<(), MappingsError>,
        next: Self,
        progress: Progress<(), HandlerError>,
    ) -> bool {
        match registered {
            Progress::Perform(action) => {
                &&& next == self.at(NewRoleStage::Registering(registering))
                &&& progress.performs(action)
            },
            Progress::Failed(error) => {
                &&& next == self.at(NewRoleStage::Ended)
                &&& progress.fails(HandlerError::Mapping(error))
            },
            Progress::Done(()) => next == self.at(NewRoleStage::Ended) && progress.yields(()),
        }
    }

    fn continue_registering(
        self,
        step: (RegisterMappings, Progress<(), MappingsError>),
    ) -> (res: (Self, Progress<(), HandlerError>))
        requires
            step.0.wf(),
            step.1.leaves(step.0.awaits()),
        ensures
            self.after_registering(step.0, step.1, res.0, res.1),
            res.0.wf(),
            res.1.leaves(res.0.awaits()),
    {
        let (registering, registered) = step;
        match registered {
            Progress::Perform(action) => (
                MirrorNewRole { stage: NewRoleStage::Registering(registering), ..self },
                Progress::Perform(action),
            ),
            Progress::Failed(error) => (
                MirrorNewRole { stage: NewRoleStage::Ended, ..self },
                Progress::Failed(HandlerError::Mapping(error)),
            ),
            Progress::Done(()) => (
                MirrorNewRole { stage: NewRoleStage::Ended, ..self },
                Progress::Done(()),
            ),
        }
    }

    fn continue_creating(
        self,
        step: (CreateRoles, Progress<RoleMap, MappingsError>),
    ) -> (res: (Self, Progress<(), HandlerError>))
        requires
            step.0.wf(),
            step.1.leaves(step.0.awaits()),
        ensures
            self.after_creating(step.0, step.1, res.0, res.1),
            res.0.wf(),
            res.1.leaves(res.0.awaits()),
    {
        let (creating, created) = step;
        match created {
            Progress::Perform(action) => (
                MirrorNewRole { stage: NewRoleStage::Creating(creating), ..self },
                Progress::Perform(action),
            ),
            Progress::Failed(error) => (
                MirrorNewRole { stage: NewRoleStage::Ended, ..self },
                Progress::Failed(HandlerError::Mapping(error)),
            ),
            Progress::Done(made) => {
                let task = register_roles(&made, (self.src_guild_id, self.dest_guild_id));
                let step = task.resume(Reply::Begin);
                self.continue_registering(step)
            },
        }
    }
}

impl Task for MirrorNewRole {
    type Output = ();

    type Error = HandlerError;

    open spec fn wf(self) -> bool {
        match self.stage {
            NewRoleStage::Creating(creating) => creating.wf(),
            NewRoleStage::Registering(registering) => registering.wf(),
            _ => true,
        }
    }

    open spec fn awaits(self) -> Option<ReplyKind> {
        match self.stage {
            NewRoleStage::Begin(_) => Some(ReplyKind::Begin),
            NewRoleStage::Creating(creating) => creating.awaits(),
            NewRoleStage::Registering(registering) => registering.awaits(),
            NewRoleStage::Ended => None,
        }
    }

    open spec fn step(
        self,
        reply: Reply,
        next: Self,
        progress: Progress<(), HandlerError>,
    ) -> bool {
        let ended = self.at(NewRoleStage::Ended);
        match (self.stage, reply) {
            (NewRoleStage::Begin(role), Reply::Begin) => if self.clone_roles {
                exists|task: CreateRoles, creating: CreateRoles, created|
                    #![trigger task.step(Reply::Begin, creating, created)]
                    {
                        &&& task.dest_guild_id == self.dest_guild_id
                        &&& task.stage matches CreateRolesStage::Begin { pending }
                        &&& pending@ == seq![role]
                        &&& task.step(Reply::Begin, creating, created)
                        &&& ended.after_creating(creating, created, next, progress)
                    }
            } else {
                next == ended && progress.yields(())
            },
            (NewRoleStage::Creating(task), _) => exists|creating: CreateRoles, created|
                #![trigger task.step(reply, creating, created)]
                {
                    &&& task.step(reply, creating, created)
                    &&& ended.after_creating(creating, created, next, progress)
                },
            (NewRoleStage::Registering(task), _) => exists|
                registering: RegisterMappings,
                registered,
            |
                #![trigger task.step(reply, registering, registered)]
                {
                    &&& task.step(reply, registering, registered)
                    &&& ended.after_registering(registering, registered, next, progress)
                },
            _ => false,
        }
    }

    fn resume(self, reply: Reply) -> (res: (Self, Progress<(), HandlerError>)) {
        assert(self.wf());
        let MirrorNewRole { src_guild_id, dest_guild_id, clone_roles, stage } = self;
        let ended = MirrorNewRole {
            src_guild_id,
            dest_guild_id,
            clone_roles,
            stage: NewRoleStage::Ended,
        };
        match (stage, reply) {
            (NewRoleStage::Begin(role), Reply::Begin) => {
                if clone_roles {
                    let mut roles: Vec<Role> = Vec::new();
                    roles.push(role);
                    assert(roles@ =~= seq![role]);
                    let task = create_roles(roles, dest_guild_id);
                    let step = task.resume(Reply::Begin);
                    ended.continue_creating(step)
                } else {
                    (ended, Progress::Done(()))
                }
            },
            (NewRoleStage::Creating(creating), reply) => {
                let step = creating.resume(reply);
                ended.continue_creating(step)
            },
            (NewRoleStage::Registering(registering), reply) => {
                let step = registering.resume(reply);
                ended.continue_registering(step)
            },
            _ => vstd::pervasive::unreached(),
        }
    }
}

// ---------------------------------------------------------------------------
// A changed role
// ---------------------------------------------------------------------------

/// How far the relaying has come.
pub enum RoleUpdateStage {
    Begin(Role),
    Finding(Role),
    Changing(Role),
    FindingAgain { role: Role, dest_role: Role },
    Updating,
    Ended,
}

/// Lets the mirror of a role follow its change, and keeps both as they are now.
pub struct RelayRoleUpdate {
    pub dest_guild_id: u64,
    pub relay_updates: bool,
    pub stage: RoleUpdateStage,
}

/// Begins to relay the change of a role.
pub fn relay_role_update(role: Role, settings: &GuildSettings) -> (task: RelayRoleUpdate)
    ensures
        task.wf(),
        task == (RelayRoleUpdate {
            dest_guild_id: settings.dest_guild_id,
            relay_updates: settings.relay_updates,
            stage: RoleUpdateStage::Begin(role),
        }),
{
    RelayRoleUpdate {
        dest_guild_id: settings.dest_guild_id,
        relay_updates: settings.relay_updates,
        stage: RoleUpdateStage::Begin(role),
    }
}

impl RelayRoleUpdate {
    /// The same relaying, at another stage.
    pub open spec fn at(self, stage: RoleUpdateStage) -> RelayRoleUpdate {
        RelayRoleUpdate { stage, ..self }
    }
}

impl Task for RelayRoleUpdate {
    type Output = ();

    type Error = HandlerError;

    open spec fn wf(self) -> bool {
        true
    }

    open spec fn awaits(self) -> Option<ReplyKind> {
        match self.stage {
            RoleUpdateStage::Begin(_) => Some(ReplyKind::Begin),
            RoleUpdateStage::Finding(_) => Some(ReplyKind::Mapping),
            RoleUpdateStage::Changing(_) => Some(ReplyKind::Role),
            RoleUpdateStage::FindingAgain { .. } => Some(ReplyKind::Record),
            RoleUpdateStage::Updating => Some(ReplyKind::Done),
            RoleUpdateStage::Ended => None,
        }
    }

    open spec fn step(
        self,
        reply: Reply,
        next: Self,
        progress: Progress<(), HandlerError>,
    ) -> bool {
        let ended = self.at(RoleUpdateStage::Ended);
        match (self.stage, reply) {
            (_, Reply::Failed(failure)) => next == ended && progress.fails(
                HandlerError::of(failure),
            ),
            (RoleUpdateStage::Begin(role), Reply::Begin) => if self.relay_updates {
                &&& next == self.at(RoleUpdateStage::Finding(role))
                &&& progress.performs(Action::GetMapping { orig_id: role.id })
            } else {
                next == ended && progress.yields(())
            },
            (RoleUpdateStage::Finding(role), Reply::Mapping(found)) => match destination(found) {
                Some(role_id) => {
                    &&& next == self.at(RoleUpdateStage::Changing(role))
                    &&& progress.performs(
                        Action::ChangeRole {
                            guild_id: self.dest_guild_id,
                            role_id,
                            shape: mirrored_shape(role),
                        },
                    )
                },
                None => next == ended && progress.yields(()),
            },
            (RoleUpdateStage::Changing(role), Reply::Role(dest_role)) => {
                &&& next == self.at(RoleUpdateStage::FindingAgain { role, dest_role })
                &&& progress.performs(Action::FindMapping { orig_id: role.id })
            },
            (
                RoleUpdateStage::FindingAgain { role, dest_role },
                Reply::Mapping(Some(mapping)),
            ) => match kept(mapping@, MappingData::Role(role), MappingData::Role(dest_role)) {
                Ok(new_mapping) => {
                    &&& next == self.at(RoleUpdateStage::Updating)
                    &&& progress.updates(mapping@, new_mapping)
                },
                Err(error) => next == ended && progress.fails(HandlerError::Database(error)),
            },
            (RoleUpdateStage::FindingAgain { .. }, Reply::Mapping(None)) => next == ended
                && progress.yields(()),
            (RoleUpdateStage::Updating, Reply::Done) => next == ended && progress.yields(()),
            _ => false,
        }
    }

    fn resume(self, reply: Reply) -> (res: (Self, Progress<(), HandlerError>)) {
        let RelayRoleUpdate { dest_guild_id, relay_updates, stage } = self;
        let ended = RelayRoleUpdate {
            dest_guild_id,
            relay_updates,
            stage: RoleUpdateStage::Ended,
        };
        match (stage, reply) {
            (_, Reply::Failed(failure)) => (
                ended,
                Progress::Failed(HandlerError::from_failure(failure)),
            ),
            (RoleUpdateStage::Begin(role), Reply::Begin) => {
                if relay_updates {
                    let action = Action::GetMapping { orig_id: role.id };
                    (
                        RelayRoleUpdate { stage: RoleUpdateStage::Finding(role), ..ended },
                        Progress::Perform(action),
                    )
                } else {
                    (ended, Progress::Done(()))
                }
            },
            (RoleUpdateStage::Finding(role), Reply::Mapping(found)) => {
                let Some(mapping) = found else {
                    return (ended, Progress::Done(()));
                };
                let action = Action::ChangeRole {
                    guild_id: dest_guild_id,
                    role_id: mapping.ref_id(),
                    shape: mirror_shape(&role),
                };
                (
                    RelayRoleUpdate { stage: RoleUpdateStage::Changing(role), ..ended },
                    Progress::Perform(action),
                )
            },
            (RoleUpdateStage::Changing(role), Reply::Role(dest_role)) => {
                let action = Action::FindMapping { orig_id: role.id };
                let stage = RoleUpdateStage::FindingAgain { role, dest_role };
                (RelayRoleUpdate { stage, ..ended }, Progress::Perform(action))
            },
            (RoleUpdateStage::FindingAgain { role, dest_role }, Reply::Mapping(found)) => {
                let Some(mapping) = found else {
                    return (ended, Progress::Done(()));
                };
                let src = MappingData::Role(role);
                let dest = MappingData::Role(dest_role);
                match keep(mapping.clone(), src, dest) {
                    Ok(new_mapping) => (
                        RelayRoleUpdate { stage: RoleUpdateStage::Updating, ..ended },
                        Progress::Perform(Action::UpdateMapping { mapping, new_mapping }),
                    ),
                    Err(error) => (ended, Progress::Failed(HandlerError::Database(error))),
                }
            },
            (RoleUpdateStage::Updating, Reply::Done) => (ended, Progress::Done(())),
            _ => vstd::pervasive::unreached(),
        }
    }
}

/// Where changes are not relayed, the change of a role leads to no operation at all.
pub proof fn unrelayed_role_update_does_nothing(
    task: RelayRoleUpdate,
    next: RelayRoleUpdate,
    progress: Progress<(), HandlerError>,
)
    requires
        !task.relay_updates,
        task.stage is Begin,
        task.step(Reply::Begin, next, progress),
    ensures
        progress.yields(()),
        next.awaits() is None,
{
}

/// Replacing a mapping after a change keeps what it leads from and what it leads to.
pub proof fn role_update_keeps_mapping(
    task: RelayRoleUpdate,
    reply: Reply,
    next: RelayRoleUpdate,
    progress: Progress<(), HandlerError>,
    mapping: MappingView,
    new_mapping: MappingView,
)
    requires
        task.step(reply, next, progress),
        progress.updates(mapping, new_mapping),
    ensures
        new_mapping.primary_key() == mapping.primary_key(),
        new_mapping.orig_guild_id == mapping.orig_guild_id,
        new_mapping.ref_guild_id == mapping.ref_guild_id,
        new_mapping.src_mapping_data is Some,
        new_mapping.dest_mapping_data is Some,
{
}

/// Where roles are not mirrored, a new role leads to no operation at all.
pub proof fn unmirrored_role_does_nothing(
    task: MirrorNewRole,
    next: MirrorNewRole,
    progress: Progress<(), HandlerError>,
)
    requires
        !task.clone_roles,
        task.stage is Begin,
        task.step(Reply::Begin, next, progress),
    ensures
        progress.yields(()),
        next.awaits() is None,
{
}

} // verus!
