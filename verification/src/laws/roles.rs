//! What is created for roles, and what is registered then.
use super::things::is_shape_of;
use super::{keeps, leads};
use crate::blacklist::Blacklist;
use crate::errors::MappingsError;
use crate::model::{encoded_view, IdMapping, Role};
use crate::operation::{Action, Progress, Reply, Task};
use crate::util::register::{Record, RegisterMappings};
use crate::util::roles::{
    is_everyone, mirrored_shape, role_added, role_index, role_index_found, unskipped_roles,
    CreateRoles, CreateRolesStage, RoleMap,
};
use vstd::prelude::*;

verus! {

/// The roles that are to be mirrored, and where: those that are not barred, and whose
/// identifier is free. What was found need not be mirrored.
pub struct RoleJob {
    pub sources: Seq<Role>,
    pub barred: Seq<Blacklist>,
    pub free: spec_fn(u64) -> bool,
    pub found: spec_fn(u64) -> bool,
    pub src_guild_id: u64,
    pub dest_guild_id: u64,
}

impl RoleJob {
    /// Whether a role is one of those that are to be mirrored.
    pub open spec fn holds(self, role: Role) -> bool {
        &&& !self.barred.contains(Blacklist::Role(role.id))
        &&& (self.free)(role.id)
        &&& self.sources.contains(role)
    }

    /// Whether all of these are to be mirrored.
    pub open spec fn holds_all(self, roles: Seq<Role>) -> bool {
        forall|i: int| 0 <= i < roles.len() ==> self.holds(#[trigger] roles[i])
    }

    /// Whether an action creates a role as another one is. The one of every member is not created.
    pub open spec fn makes(self, action: Action, role: Role) -> bool {
        &&& role.name@ != "@everyone"@
        &&& action matches Action::CreateRole { guild_id, shape } && guild_id == self.dest_guild_id
            && is_shape_of(shape, role)
    }

    /// Whether nothing is left to be asked for a role: it is barred, it was found, it is the one of
    /// every member, or it was asked for.
    pub open spec fn is_settled(self, role: Role, actions: Seq<Option<Action>>) -> bool {
        ||| self.barred.contains(Blacklist::Role(role.id))
        ||| (self.found)(role.id)
        ||| role.name@ == "@everyone"@
        ||| exists|j: int|
            0 <= j < actions.len() && ((#[trigger] actions[j]) matches Some(action) && self.makes(
                action,
                role,
            ))
    }

    /// Whether every role is settled, or is among those that are left.
    pub open spec fn covers(self, left: Seq<Role>, actions: Seq<Option<Action>>) -> bool {
        forall|x: int|
            0 <= x < self.sources.len() ==> self.is_settled(#[trigger] self.sources[x], actions)
                || left.contains(self.sources[x])
    }

    /// Whether answer `j` tells that a role was created as one of those that are to be mirrored.
    pub open spec fn creates(
        self,
        src: Role,
        dest: Role,
        actions: Seq<Option<Action>>,
        replies: Seq<Reply>,
        j: int,
    ) -> bool {
        &&& 0 < j < replies.len()
        &&& self.holds(src)
        &&& actions[j - 1] matches Some(action) && self.makes(action, src)
        &&& replies[j] == Reply::Role(dest)
    }

    /// Whether a role was created for one that is the same as the given one.
    pub open spec fn was_created(
        self,
        key: Role,
        dest: Role,
        actions: Seq<Option<Action>>,
        replies: Seq<Reply>,
        k: int,
    ) -> bool {
        exists|src: Role, j: int|
            {
                &&& #[trigger] self.creates(src, dest, actions, replies, j)
                &&& j <= k
                &&& key.id == src.id
                &&& encoded_view(key.encoded) == encoded_view(src.encoded)
            }
    }

    /// Whether all that was made was created for what it mirrors.
    pub open spec fn were_created(
        self,
        made: Seq<(Role, Role)>,
        actions: Seq<Option<Action>>,
        replies: Seq<Reply>,
        k: int,
    ) -> bool {
        forall|e: int|
            0 <= e < made.len() ==> self.was_created(
                (#[trigger] made[e]).0,
                made[e].1,
                actions,
                replies,
                k,
            )
    }

    /// Whether a mapping leads from a role that is to be mirrored to what was created for it, and
    /// keeps both.
    pub open spec fn is_recorded(
        self,
        mapping: IdMapping,
        actions: Seq<Option<Action>>,
        replies: Seq<Reply>,
        k: int,
    ) -> bool {
        exists|src: Role, dest: Role, j: int|
            {
                &&& #[trigger] self.creates(src, dest, actions, replies, j)
                &&& j <= k
                &&& leads(mapping@, src.id, dest.id, self.src_guild_id, self.dest_guild_id)
                &&& keeps(mapping@, src.encoded, dest.encoded)
            }
    }

    /// Whether all records that are mappings are those of what was created.
    pub open spec fn are_recorded(
        self,
        records: Seq<Record>,
        actions: Seq<Option<Action>>,
        replies: Seq<Reply>,
        k: int,
    ) -> bool {
        forall|e: int|
            0 <= e < records.len() && (#[trigger] records[e]) is Ok ==> self.is_recorded(
                records[e]->Ok_0,
                actions,
                replies,
                k,
            )
    }

    /// Whether a creation waits for the answer after `k`.
    pub open spec fn is_creating(
        self,
        task: CreateRoles,
        actions: Seq<Option<Action>>,
        replies: Seq<Reply>,
        k: int,
    ) -> bool {
        &&& task.dest_guild_id == self.dest_guild_id
        &&& match task.stage {
            CreateRolesStage::Creating { src, pending, made } => {
                &&& self.holds(src)
                &&& self.holds_all(pending@)
                &&& self.covers(pending@, actions)
                &&& self.were_created(made@, actions, replies, k)
                &&& actions[k] matches Some(action) && self.makes(action, src)
            },
            CreateRolesStage::Waiting { pending, made } => {
                &&& self.holds_all(pending@)
                &&& self.covers(pending@, actions)
                &&& self.were_created(made@, actions, replies, k)
            },
            _ => false,
        }
    }
}

/// Once a role is settled, the others cover what is left.
pub(crate) proof fn covered_without(
    job: RoleJob,
    left: Seq<Role>,
    at: int,
    actions: Seq<Option<Action>>,
)
    requires
        job.covers(left, actions),
        0 <= at < left.len(),
        job.is_settled(left[at], actions),
    ensures
        job.covers(left.remove(at), actions),
{
    let rest = left.remove(at);
    assert forall|x: int| 0 <= x < job.sources.len() implies job.is_settled(
        #[trigger] job.sources[x],
        actions,
    ) || rest.contains(job.sources[x]) by {
        let src = job.sources[x];
        if !job.is_settled(src, actions) {
            let y = choose|y: int| 0 <= y < left.len() && left[y] == src;
            if y < at {
                assert(rest[y] == left[y]);
            } else {
                assert(rest[y - 1] == left[y]);
            }
        }
    }
}

/// Skipping what is passed over keeps what is to be mirrored.
proof fn unskipped_are_held(job: RoleJob, pending: Seq<Role>, actions: Seq<Option<Action>>)
    requires
        job.holds_all(pending),
        job.covers(pending, actions),
    ensures
        ({
            let left = unskipped_roles(pending);
            &&& job.holds_all(left)
            &&& job.covers(left, actions)
            &&& left.len() > 0 ==> !is_everyone(left[0])
        }),
    decreases pending.len(),
{
    if pending.len() > 0 && is_everyone(pending[0]) {
        let rest = pending.drop_first();
        assert forall|i: int| 0 <= i < rest.len() implies job.holds(#[trigger] rest[i]) by {
            assert(rest[i] == pending[i + 1]);
        }
        covered_without(job, pending, 0, actions);
        assert(pending.remove(0) =~= rest);
        unskipped_are_held(job, rest, actions);
    }
}

/// What a creation has come to while some roles are left.
pub(crate) proof fn creating_continues(
    job: RoleJob,
    task: CreateRoles,
    pending: Seq<Role>,
    made: Seq<(Role, Role)>,
    next: CreateRoles,
    progress: Progress<RoleMap, MappingsError>,
    actions: Seq<Option<Action>>,
    replies: Seq<Reply>,
    k: int,
)
    requires
        task.dest_guild_id == job.dest_guild_id,
        job.holds_all(pending),
        job.covers(pending, actions),
        0 <= k < actions.len(),
        job.were_created(made, actions, replies, k),
        task.continues(pending, made, next, progress),
        progress matches Progress::Perform(action) ==> actions[k] == Some(action),
    ensures
        match progress {
            Progress::Perform(action) => job.is_creating(next, actions, replies, k) && (
            exists|src: Role| #[trigger] job.makes(action, src) && job.holds(src)),
            Progress::Done(map) => job.were_created(map@, actions, replies, k) && job.covers(
                Seq::empty(),
                actions,
            ),
            Progress::Failed(_) => true,
        },
{
    unskipped_are_held(job, pending, actions);
    let left = unskipped_roles(pending);
    if left.len() == 0 {
        assert(left =~= Seq::empty());
    } else {
        assert(job.holds(left[0]));
        assert(job.makes(
            Action::CreateRole { guild_id: job.dest_guild_id, shape: mirrored_shape(left[0]) },
            left[0],
        ));
        assert(job.is_settled(left[0], actions)) by {
            assert(actions[k] is Some);
        }
        covered_without(job, left, 0, actions);
        assert(left.remove(0) =~= left.drop_first());
        assert forall|i: int| 0 <= i < left.drop_first().len() implies job.holds(
            #[trigger] left.drop_first()[i],
        ) by {
            assert(left.drop_first()[i] == left[i + 1]);
        }
    }
}

/// What was created before was created.
proof fn created_stays_created(
    job: RoleJob,
    made: Seq<(Role, Role)>,
    actions: Seq<Option<Action>>,
    replies: Seq<Reply>,
    k: int,
)
    requires
        job.were_created(made, actions, replies, k - 1),
    ensures
        job.were_created(made, actions, replies, k),
{
    assert forall|e: int| 0 <= e < made.len() implies job.was_created(
        (#[trigger] made[e]).0,
        made[e].1,
        actions,
        replies,
        k,
    ) by {
        assert(job.was_created(made[e].0, made[e].1, actions, replies, k - 1));
        let (src, j) = choose|src: Role, j: int|
            {
                &&& #[trigger] job.creates(src, made[e].1, actions, replies, j)
                &&& j <= k - 1
                &&& made[e].0.id == src.id
                &&& encoded_view(made[e].0.encoded) == encoded_view(src.encoded)
            };
        assert(job.creates(src, made[e].1, actions, replies, j));
    }
}

/// One step of a creation.
pub(crate) proof fn creating_goes_on(
    job: RoleJob,
    task: CreateRoles,
    next: CreateRoles,
    progress: Progress<RoleMap, MappingsError>,
    actions: Seq<Option<Action>>,
    replies: Seq<Reply>,
    k: int,
)
    requires
        job.is_creating(task, actions, replies, k - 1),
        task.awaits() is Some,
        replies[k].answers(task.awaits()->0),
        task.step(replies[k], next, progress),
        0 < k < replies.len(),
        replies.len() == actions.len(),
        progress matches Progress::Perform(action) ==> actions[k] == Some(action),
    ensures
        match progress {
            Progress::Perform(action) => job.is_creating(next, actions, replies, k) && (
            action == Action::Sleep(1) || exists|src: Role| #[trigger]
                job.makes(action, src) && job.holds(src)),
            Progress::Done(map) => job.were_created(map@, actions, replies, k) && job.covers(
                Seq::empty(),
                actions,
            ),
            Progress::Failed(_) => true,
        },
{
    match task.stage {
        CreateRolesStage::Creating { src, pending, made } => {
            created_stays_created(job, made@, actions, replies, k);
            if let Reply::Role(dest) = replies[k] {
                assert(job.creates(src, dest, actions, replies, k));
                role_index_found(made@, src);
                let added = role_added(made@, src, dest);
                assert forall|e: int| 0 <= e < added.len() implies job.was_created(
                    (#[trigger] added[e]).0,
                    added[e].1,
                    actions,
                    replies,
                    k,
                ) by {
                    if e != role_index(made@, src) {
                        assert(added[e] == made@[e]);
                    } else {
                        assert(added[e].1 == dest);
                    }
                }
            }
        },
        CreateRolesStage::Waiting { pending, made } => {
            created_stays_created(job, made@, actions, replies, k);
            if replies[k] is Done {
                creating_continues(
                    job,
                    task.at(CreateRolesStage::Ended),
                    pending@,
                    made@,
                    next,
                    progress,
                    actions,
                    replies,
                    k,
                );
            }
        },
        _ => {},
    }
}

/// What was created is what is recorded.
pub(crate) proof fn created_is_recorded(
    job: RoleJob,
    made: Seq<(Role, Role)>,
    task: RegisterMappings,
    actions: Seq<Option<Action>>,
    replies: Seq<Reply>,
    k: int,
)
    requires
        job.were_created(made, actions, replies, k),
        task.registers_roles(made, (job.src_guild_id, job.dest_guild_id)),
    ensures
        job.are_recorded(task.records@, actions, replies, k),
{
    let records = task.records@;
    assert forall|e: int| 0 <= e < records.len() && (#[trigger] records[e]) is Ok implies
        job.is_recorded(records[e]->Ok_0, actions, replies, k) by {
        assert(job.was_created(made[e].0, made[e].1, actions, replies, k));
        let (src, j) = choose|src: Role, j: int|
            {
                &&& #[trigger] job.creates(src, made[e].1, actions, replies, j)
                &&& j <= k
                &&& made[e].0.id == src.id
                &&& encoded_view(made[e].0.encoded) == encoded_view(src.encoded)
            };
        assert(job.creates(src, made[e].1, actions, replies, j));
    }
}

/// What was recorded before is recorded.
pub(crate) proof fn recorded_stays_recorded(
    job: RoleJob,
    records: Seq<Record>,
    actions: Seq<Option<Action>>,
    replies: Seq<Reply>,
    k: int,
)
    requires
        job.are_recorded(records, actions, replies, k - 1),
    ensures
        job.are_recorded(records, actions, replies, k),
{
    assert forall|e: int| 0 <= e < records.len() && (#[trigger] records[e]) is Ok implies
        job.is_recorded(records[e]->Ok_0, actions, replies, k) by {
        let mapping = records[e]->Ok_0;
        assert(job.is_recorded(mapping, actions, replies, k - 1));
        let (src, dest, j) = choose|src: Role, dest: Role, j: int|
            {
                &&& #[trigger] job.creates(src, dest, actions, replies, j)
                &&& j <= k - 1
                &&& leads(mapping@, src.id, dest.id, job.src_guild_id, job.dest_guild_id)
                &&& keeps(mapping@, src.encoded, dest.encoded)
            };
        assert(job.creates(src, dest, actions, replies, j));
    }
}

/// The same mapping is recorded, whatever holds it.
pub(crate) proof fn recorded_by_view(
    job: RoleJob,
    mapping: IdMapping,
    other: IdMapping,
    actions: Seq<Option<Action>>,
    replies: Seq<Reply>,
    k: int,
)
    requires
        job.is_recorded(mapping, actions, replies, k),
        mapping@ == other@,
    ensures
        job.is_recorded(other, actions, replies, k),
{
    let (src, dest, j) = choose|src: Role, dest: Role, j: int|
        {
            &&& #[trigger] job.creates(src, dest, actions, replies, j)
            &&& j <= k
            &&& leads(mapping@, src.id, dest.id, job.src_guild_id, job.dest_guild_id)
            &&& keeps(mapping@, src.encoded, dest.encoded)
        };
    assert(job.creates(src, dest, actions, replies, j));
}

} // verus!
