//! Creating the mirrors of roles, and putting them in order.
use crate::errors::MappingsError;
use crate::model::{same_role, Role};
use crate::operation::{is_run, runs_end, Action, Progress, Reply, ReplyKind, RoleShape, Task};
use vstd::prelude::*;

verus! {

// ---------------------------------------------------------------------------
// What mirrors what
// ---------------------------------------------------------------------------

/// Roles and what mirrors them. No role stands in the list twice.
pub type RoleMap = Vec<(Role, Role)>;

/// Whether no role stands in the list twice.
pub open spec fn is_role_map(map: Seq<(Role, Role)>) -> bool {
    forall|i: int, j: int|
        0 <= i < j < map.len() ==> !same_role((#[trigger] map[i]).0, (#[trigger] map[j]).0)
}

/// Where a role stands in a list, or the length of the list.
pub open spec fn role_index(map: Seq<(Role, Role)>, role: Role) -> int
    decreases map.len(),
{
    if map.len() == 0 {
        0
    } else if same_role(map[0].0, role) {
        0
    } else {
        1 + role_index(map.drop_first(), role)
    }
}

/// The list in which `dest` mirrors `src`, and all else is as before.
pub open spec fn role_added(map: Seq<(Role, Role)>, src: Role, dest: Role) -> Seq<(Role, Role)> {
    let i = role_index(map, src);
    if i < map.len() {
        map.update(i, (map[i].0, dest))
    } else {
        map.push((src, dest))
    }
}

/// A role stands where its index says, and nowhere before.
pub proof fn role_index_found(map: Seq<(Role, Role)>, role: Role)
    ensures
        0 <= role_index(map, role) <= map.len(),
        forall|i: int|
            0 <= i < role_index(map, role) ==> !same_role((#[trigger] map[i]).0, role),
        role_index(map, role) < map.len() ==> same_role(map[role_index(map, role)].0, role),
    decreases map.len(),
{
    if map.len() > 0 && !same_role(map[0].0, role) {
        let rest = map.drop_first();
        role_index_found(rest, role);
        assert forall|i: int| 0 <= i < role_index(map, role) implies !same_role(
            (#[trigger] map[i]).0,
            role,
        ) by {
            if i > 0 {
                assert(rest[i - 1] == map[i]);
            }
        }
    }
}

/// Adding a pair keeps a map a map, gives the role its mirror, and leaves the mirrors of all
/// other roles alone.
pub proof fn adding_a_role(map: Seq<(Role, Role)>, src: Role, dest: Role)
    requires
        is_role_map(map),
    ensures
        ({
            let added = role_added(map, src, dest);
            &&& is_role_map(added)
            &&& role_index(added, src) < added.len()
            &&& added[role_index(added, src)].1 == dest
            &&& map.len() <= added.len()
            &&& forall|i: int|
                0 <= i < map.len() && !same_role((#[trigger] map[i]).0, src) ==> added[i] == map[i]
        }),
{
    role_index_found(map, src);
    let i = role_index(map, src);
    let added = role_added(map, src, dest);
    role_index_found(added, src);
    let j = role_index(added, src);
    if i < map.len() {
        assert(same_role(added[i].0, src));
        assert(j <= i);
        if j < i {
            assert(added[j] == map[j]);
        }
    } else {
        assert(added[map.len() as int] == (src, dest));
        assert(j <= map.len());
        if j < map.len() {
            assert(added[j] == map[j]);
        }
    }
}

/// Lets `dest` mirror `src`.
pub fn add_role(map: &mut RoleMap, src: Role, dest: Role)
    ensures
        final(map)@ == role_added(old(map)@, src, dest),
{
    let ghost before = map@;
    let mut i: usize = 0;
    proof {
        role_index_found(before, src);
    }
    while i < map.len() && !map[i].0.same_as(&src)
        invariant
            i <= map@.len(),
            map@ == before,
            forall|j: int| 0 <= j < i ==> !same_role((#[trigger] before[j]).0, src),
        decreases map@.len() - i,
    {
        i += 1;
    }
    proof {
        let k = role_index(before, src);
        if k < i {
            assert(same_role(before[k].0, src));
        } else if i < before.len() {
            assert(same_role(before[i as int].0, src));
            assert(k == i);
        }
    }
    if i < map.len() {
        let (key, _) = map.remove(i);
        map.insert(i, (key, dest));
        assert(map@ =~= role_added(before, src, dest));
    } else {
        map.push((src, dest));
    }
}

// ---------------------------------------------------------------------------
// Creating
// ---------------------------------------------------------------------------

/// What the mirror of a role is to be.
pub open spec fn mirrored_shape(role: Role) -> RoleShape {
    RoleShape {
        color: role.color,
        hoist: role.hoist,
        mentionable: role.mentionable,
        name: role.name,
        permissions: role.permissions,
    }
}

/// What the mirror of a role is to be.
pub fn mirror_shape(role: &Role) -> (shape: RoleShape)
    ensures
        shape == mirrored_shape(*role),
{
    RoleShape {
        color: role.color,
        hoist: role.hoist,
        mentionable: role.mentionable,
        name: role.name.clone(),
        permissions: role.permissions,
    }
}

/// Whether a role is the one that every member of a guild has. Every guild has that role, so
/// it is not created.
pub open spec fn is_everyone(role: Role) -> bool {
    role.name@ == "@everyone"@
}

/// How far the creation has come.
pub enum CreateRolesStage {
    Begin { pending: Vec<Role> },
    Creating { src: Role, pending: Vec<Role>, made: RoleMap },
    Waiting { pending: Vec<Role>, made: RoleMap },
    Ended,
}

/// Creates the mirrors of some roles, one after the other, and tells what mirrors what.
pub struct CreateRoles {
    pub dest_guild_id: u64,
    pub stage: CreateRolesStage,
}

/// Begins to create the mirrors of some roles.
pub fn create_roles(src_roles: Vec<Role>, dest_guild_id: u64) -> (task: CreateRoles)
    ensures
        task.wf(),
        task == (CreateRoles {
            dest_guild_id,
            stage: CreateRolesStage::Begin { pending: src_roles },
        }),
{
    CreateRoles { dest_guild_id, stage: CreateRolesStage::Begin { pending: src_roles } }
}

/// What is left of some roles once those that are passed over at the front are gone.
pub open spec fn unskipped_roles(pending: Seq<Role>) -> Seq<Role>
    decreases pending.len(),
{
    if pending.len() > 0 && is_everyone(pending[0]) {
        unskipped_roles(pending.drop_first())
    } else {
        pending
    }
}

impl CreateRoles {
    /// The same creation, at another stage.
    pub open spec fn at(self, stage: CreateRolesStage) -> CreateRoles {
        CreateRoles { stage, ..self }
    }

    /// What follows once some mirrors were made: the next role that is not passed over is
    /// created, or the creation ends.
    pub open spec fn continues(
        self,
        pending: Seq<Role>,
        made: Seq<(Role, Role)>,
        next: Self,
        progress: Progress<RoleMap, MappingsError>,
    ) -> bool {
        let left = unskipped_roles(pending);
        if left.len() == 0 {
            &&& next == self.at(CreateRolesStage::Ended)
            &&& progress matches Progress::Done(map)
            &&& map@ == made
        } else {
            &&& next.dest_guild_id == self.dest_guild_id
            &&& next.stage matches CreateRolesStage::Creating {
                src,
                pending: next_pending,
                made: next_made,
            }
            &&& src == left[0]
            &&& next_pending@ == left.drop_first()
            &&& next_made@ == made
            &&& progress.performs(
                Action::CreateRole { guild_id: self.dest_guild_id, shape: mirrored_shape(src) },
            )
        }
    }

    fn proceed(self, roles: Vec<Role>, made: RoleMap) -> (res: (
        Self,
        Progress<RoleMap, MappingsError>,
    ))
        ensures
            self.continues(roles@, made@, res.0, res.1),
            res.0.wf(),
            res.1.leaves(res.0.awaits()),
    {
        let mut pending = roles;
        while pending.len() > 0
            invariant
                unskipped_roles(pending@) == unskipped_roles(roles@),
            decreases pending@.len(),
        {
            let ghost before = pending@;
            let src = pending.remove(0);
            assert(pending@ =~= before.drop_first());
            let everyone = "@everyone".to_string();
            if src.name != everyone {
                let shape = mirror_shape(&src);
                let action = Action::CreateRole { guild_id: self.dest_guild_id, shape };
                let stage = CreateRolesStage::Creating { src, pending, made };
                return (CreateRoles { stage, ..self }, Progress::Perform(action));
            }
        }
        (CreateRoles { stage: CreateRolesStage::Ended, ..self }, Progress::Done(made))
    }
}

impl Task for CreateRoles {
    type Output = RoleMap;

    type Error = MappingsError;

    open spec fn wf(self) -> bool {
        true
    }

    open spec fn awaits(self) -> Option<ReplyKind> {
        match self.stage {
            CreateRolesStage::Begin { .. } => Some(ReplyKind::Begin),
            CreateRolesStage::Creating { .. } => Some(ReplyKind::Role),
            CreateRolesStage::Waiting { .. } => Some(ReplyKind::Done),
            CreateRolesStage::Ended => None,
        }
    }

    open spec fn step(
        self,
        reply: Reply,
        next: Self,
        progress: Progress<RoleMap, MappingsError>,
    ) -> bool {
        let ended = self.at(CreateRolesStage::Ended);
        match (self.stage, reply) {
            (_, Reply::Failed(failure)) => next == ended && progress.fails(
                MappingsError::of(failure),
            ),
            (CreateRolesStage::Begin { pending }, Reply::Begin) => ended.continues(
                pending@,
                Seq::empty(),
                next,
                progress,
            ),
            (CreateRolesStage::Creating { src, pending, made }, Reply::Role(dest)) => {
                &&& next.dest_guild_id == self.dest_guild_id
                &&& next.stage matches CreateRolesStage::Waiting {
                    pending: next_pending,
                    made: next_made,
                }
                &&& next_pending == pending
                &&& next_made@ == role_added(made@, src, dest)
                &&& progress.performs(Action::Sleep(1))
            },
            (CreateRolesStage::Waiting { pending, made }, Reply::Done) => ended.continues(
                pending@,
                made@,
                next,
                progress,
            ),
            _ => false,
        }
    }

    fn resume(self, reply: Reply) -> (res: (Self, Progress<RoleMap, MappingsError>)) {
        let CreateRoles { dest_guild_id, stage } = self;
        let ended = CreateRoles { dest_guild_id, stage: CreateRolesStage::Ended };
        match (stage, reply) {
            (_, Reply::Failed(failure)) => (
                ended,
                Progress::Failed(MappingsError::from_failure(failure)),
            ),
            (CreateRolesStage::Begin { pending }, Reply::Begin) => ended.proceed(
                pending,
                Vec::new(),
            ),
            (CreateRolesStage::Creating { src, pending, made }, Reply::Role(dest)) => {
                let mut made = made;
                add_role(&mut made, src, dest);
                let stage = CreateRolesStage::Waiting { pending, made };
                (CreateRoles { stage, ..ended }, Progress::Perform(Action::Sleep(1)))
            },
            (CreateRolesStage::Waiting { pending, made }, Reply::Done) => ended.proceed(
                pending,
                made,
            ),
            _ => vstd::pervasive::unreached(),
        }
    }
}

// ---------------------------------------------------------------------------
// Putting in order
// ---------------------------------------------------------------------------

/// Where the mirrors of roles go: each to the position of what it mirrors.
pub open spec fn role_positions(map: Seq<(Role, Role)>) -> Seq<(u64, u64)> {
    map.map_values(|pair: (Role, Role)| (pair.1.id, pair.0.position as u64))
}

/// How far the putting in order has come.
#[derive(Clone, Copy, Debug, PartialEq, Eq, Structural)]
pub enum RepositionRolesStage {
    Begin,
    Positioning,
    Ended,
}

/// Puts the mirrors of roles into the order of what they mirror.
pub struct RepositionRoles {
    pub dest_guild_id: u64,
    pub positions: Vec<(u64, u64)>,
    pub stage: RepositionRolesStage,
}

/// Begins to put the mirrors of roles in order.
pub fn reposition_roles(dest_guild_id: u64, roles: &RoleMap) -> (task: RepositionRoles)
    ensures
        task.wf(),
        task.dest_guild_id == dest_guild_id,
        task.positions@ == role_positions(roles@),
        task.stage is Begin,
{
    let mut positions: Vec<(u64, u64)> = Vec::new();
    for i in 0..roles.len()
        invariant
            positions@ == role_positions(roles@).take(i as int),
    {
        positions.push((roles[i].1.id, roles[i].0.position as u64));
        assert(role_positions(roles@).take(i + 1) == role_positions(roles@).take(i as int).push(
            role_positions(roles@)[i as int],
        ));
    }
    assert(role_positions(roles@).take(roles@.len() as int) == role_positions(roles@));
    RepositionRoles { dest_guild_id, positions, stage: RepositionRolesStage::Begin }
}

impl Task for RepositionRoles {
    type Output = ();

    type Error = MappingsError;

    open spec fn wf(self) -> bool {
        true
    }

    open spec fn awaits(self) -> Option<ReplyKind> {
        match self.stage {
            RepositionRolesStage::Begin => Some(ReplyKind::Begin),
            RepositionRolesStage::Positioning => Some(ReplyKind::Done),
            RepositionRolesStage::Ended => None,
        }
    }

    open spec fn step(
        self,
        reply: Reply,
        next: Self,
        progress: Progress<(), MappingsError>,
    ) -> bool {
        match (self.stage, reply) {
            (RepositionRolesStage::Begin, Reply::Begin) => if self.positions@.len() == 0 {
                next.stage is Ended && progress.yields(())
            } else {
                &&& next.stage is Positioning
                &&& progress.performs(
                    Action::PositionRoles {
                        guild_id: self.dest_guild_id,
                        positions: self.positions,
                    },
                )
            },
            (RepositionRolesStage::Positioning, Reply::Done) => next.stage is Ended
                && progress.yields(()),
            (_, Reply::Failed(failure)) => next.stage is Ended && progress.fails(
                MappingsError::of(failure),
            ),
            _ => false,
        }
    }

    fn resume(self, reply: Reply) -> (res: (Self, Progress<(), MappingsError>)) {
        let RepositionRoles { dest_guild_id, positions, stage } = self;
        let ended = RepositionRoles {
            dest_guild_id,
            positions: Vec::new(),
            stage: RepositionRolesStage::Ended,
        };
        match (stage, reply) {
            (RepositionRolesStage::Begin, Reply::Begin) => {
                if positions.len() == 0 {
                    (ended, Progress::Done(()))
                } else {
                    (
                        RepositionRoles { stage: RepositionRolesStage::Positioning, ..ended },
                        Progress::Perform(
                            Action::PositionRoles { guild_id: dest_guild_id, positions },
                        ),
                    )
                }
            },
            (RepositionRolesStage::Positioning, Reply::Done) => (ended, Progress::Done(())),
            (_, Reply::Failed(failure)) => (
                ended,
                Progress::Failed(MappingsError::from_failure(failure)),
            ),
            _ => vstd::pervasive::unreached(),
        }
    }
}

// ---------------------------------------------------------------------------
// What is made in the end
// ---------------------------------------------------------------------------

/// Those of some roles that are not passed over, in their order.
pub open spec fn creatable_roles(roles: Seq<Role>) -> Seq<Role> {
    roles.filter(|role: Role| !is_everyone(role))
}

/// The list in which each of the roles that were created mirrors the one that it was created
/// for.
pub open spec fn role_mirrors_made(roles: Seq<Role>, created: Seq<Role>) -> Seq<(Role, Role)>
    decreases created.len(),
{
    if created.len() == 0 {
        Seq::empty()
    } else {
        role_added(
            role_mirrors_made(roles, created.drop_last()),
            roles[created.len() - 1],
            created.last(),
        )
    }
}

/// Skipping what is passed over at the front leaves what is not.
proof fn unskipped_roles_keeps(pending: Seq<Role>)
    ensures
        ({
            let left = unskipped_roles(pending);
            &&& creatable_roles(pending) == if left.len() == 0 {
                Seq::empty()
            } else {
                seq![left[0]] + creatable_roles(left.drop_first())
            }
            &&& left.len() > 0 ==> !is_everyone(left[0])
        }),
    decreases pending.len(),
{
    let wanted = |role: Role| !is_everyone(role);
    if pending.len() == 0 {
        reveal(Seq::filter);
    } else {
        let first = seq![pending[0]];
        let rest = pending.drop_first();
        assert(first + rest =~= pending);
        Seq::filter_distributes_over_add(first, rest, wanted);
        assert(first.filter(wanted) == if wanted(pending[0]) {
            first
        } else {
            Seq::empty()
        }) by {
            reveal(Seq::filter);
            assert(first.drop_last() =~= Seq::empty());
            assert(first.drop_last().filter(wanted) =~= Seq::empty());
        }
        if !wanted(pending[0]) {
            unskipped_roles_keeps(rest);
            assert(creatable_roles(pending) =~= creatable_roles(rest));
        }
    }
}

impl CreateRoles {
    /// Whether this is a creation of mirrors for some roles that waits for the answer to an
    /// operation, and what was created so far.
    pub open spec fn has_come_to(
        self,
        roles: Seq<Role>,
        created: Seq<Role>,
        asked: Action,
    ) -> bool {
        let wanted = creatable_roles(roles);
        let n = created.len() as int;
        match self.stage {
            CreateRolesStage::Creating { src, pending, made } => {
                &&& asks_for_role(asked, src, self)
                &&& n < wanted.len()
                &&& wanted.skip(n) == seq![src] + creatable_roles(pending@)
                &&& made@ == role_mirrors_made(wanted, created)
            },
            CreateRolesStage::Waiting { pending, made } => {
                &&& asked == Action::Sleep(1)
                &&& n <= wanted.len()
                &&& wanted.skip(n) == creatable_roles(pending@)
                &&& made@ == role_mirrors_made(wanted, created)
            },
            _ => false,
        }
    }
}

/// Whether an operation creates the mirror of a role.
pub open spec fn asks_for_role(asked: Action, src: Role, task: CreateRoles) -> bool {
    asked == (Action::CreateRole { guild_id: task.dest_guild_id, shape: mirrored_shape(src) })
}

/// What a creation has come to while some roles are left.
pub(crate) proof fn creating_roles_continues(
    task: CreateRoles,
    roles: Seq<Role>,
    created: Seq<Role>,
    pending: Seq<Role>,
    next: CreateRoles,
    progress: Progress<RoleMap, MappingsError>,
)
    requires
        created.len() <= creatable_roles(roles).len(),
        creatable_roles(roles).skip(created.len() as int) == creatable_roles(
            pending,
        ),
        task.continues(
            pending,
            role_mirrors_made(creatable_roles(roles), created),
            next,
            progress,
        ),
    ensures
        next.dest_guild_id == task.dest_guild_id,
        match progress {
            Progress::Perform(action) => next.has_come_to(roles, created, action),
            Progress::Done(map) => {
                &&& created.len() == creatable_roles(roles).len()
                &&& map@ == role_mirrors_made(creatable_roles(roles), created)
            },
            Progress::Failed(_) => false,
        },
{
    unskipped_roles_keeps(pending);
    let wanted = creatable_roles(roles);
    let left = unskipped_roles(pending);
    assert(wanted.skip(created.len() as int).len() == wanted.len() - created.len());
    if left.len() > 0 {
        assert(wanted.skip(created.len() as int).len() > 0);
    }
}

/// One step of a creation.
pub(crate) proof fn creating_roles_goes_on(
    task: CreateRoles,
    roles: Seq<Role>,
    created: Seq<Role>,
    asked: Action,
    reply: Reply,
    next: CreateRoles,
    progress: Progress<RoleMap, MappingsError>,
)
    requires
        task.has_come_to(roles, created, asked),
        !(reply is Failed),
        task.awaits() is Some,
        reply.answers(task.awaits()->0),
        task.step(reply, next, progress),
    ensures
        next.dest_guild_id == task.dest_guild_id,
        ({
            let created = if task.stage is Creating {
                created.push(reply->Role_0)
            } else {
                created
            };
            match progress {
                Progress::Perform(action) => next.has_come_to(roles, created, action),
                Progress::Done(map) => {
                    &&& task.stage is Waiting
                    &&& created.len() == creatable_roles(roles).len()
                    &&& map@ == role_mirrors_made(creatable_roles(roles), created)
                },
                Progress::Failed(_) => false,
            }
        }),
{
    let wanted = creatable_roles(roles);
    let n = created.len() as int;
    match task.stage {
        CreateRolesStage::Creating { src, pending, made } => {
            assert(wanted.skip(n)[0] == src);
            let rest = creatable_roles(pending@);
            assert((seq![src] + rest).drop_first() =~= rest);
            assert(wanted.skip(n).drop_first() =~= wanted.skip(n + 1));
            assert(created.push(reply->Role_0).drop_last() =~= created);
        },
        CreateRolesStage::Waiting { pending, made } => {
            creating_roles_continues(
                task.at(CreateRolesStage::Ended),
                roles,
                created,
                pending@,
                next,
                progress,
            );
        },
        _ => {},
    }
}

/// The first roles that were created in a run, in their order.
pub open spec fn created_roles(replies: Seq<Reply>, n: int) -> Seq<Role> {
    Seq::new(n as nat, |k: int| replies[2 * k + 1]->Role_0)
}

/// Where nothing fails, a mirror is created for every role that is not passed over, each once,
/// in order and with a pause after it, and the result tells which mirrors which.
pub proof fn roles_are_created(
    tasks: Seq<CreateRoles>,
    replies: Seq<Reply>,
    progress: Seq<Progress<RoleMap, MappingsError>>,
    roles: Vec<Role>,
    k: int,
)
    requires
        is_run(tasks, replies, progress),
        tasks[0].stage == (CreateRolesStage::Begin { pending: roles }),
        replies.len() > 0,
        progress.last() is Done,
        0 <= k <= creatable_roles(roles@).len(),
    ensures
        ({
            let wanted = creatable_roles(roles@);
            &&& replies.len() == 2 * wanted.len() + 1
            &&& k < wanted.len() ==> {
                &&& progress[2 * k] matches Progress::Perform(asked)
                &&& asks_for_role(asked, wanted[k], tasks[0])
                &&& replies[2 * k + 1] is Role
                &&& progress[2 * k + 1].performs(Action::Sleep(1))
            }
            &&& progress.last()->Done_0@ == role_mirrors_made(
                wanted,
                created_roles(replies, wanted.len() as int),
            )
        }),
{
    let wanted = creatable_roles(roles@);
    roles_are_created_up_to(tasks, replies, progress, roles, replies.len() - 1);
    if k < wanted.len() {
        roles_are_created_up_to(tasks, replies, progress, roles, 2 * k);
        roles_are_created_up_to(tasks, replies, progress, roles, 2 * k + 1);
        let made = replies[2 * k + 1];
    }
}

/// Where no role is left to be mirrored nothing is created.
pub(crate) proof fn nothing_is_created_for_no_roles(
    task: CreateRoles,
    roles: Vec<Role>,
    next: CreateRoles,
    progress: Progress<RoleMap, MappingsError>,
)
    requires
        task.stage == (CreateRolesStage::Begin { pending: roles }),
        creatable_roles(roles@).len() == 0,
        task.step(Reply::Begin, next, progress),
    ensures
        progress matches Progress::Done(map) && map@.len() == 0,
{
    unskipped_roles_keeps(roles@);
}

proof fn roles_are_created_up_to(
    tasks: Seq<CreateRoles>,
    replies: Seq<Reply>,
    progress: Seq<Progress<RoleMap, MappingsError>>,
    roles: Vec<Role>,
    k: int,
)
    requires
        is_run(tasks, replies, progress),
        tasks[0].stage == (CreateRolesStage::Begin { pending: roles }),
        replies.len() > 0,
        progress.last() is Done,
        0 <= k,
        k < replies.len() || k < 2 * creatable_roles(roles@).len(),
    ensures
        k < replies.len(),
        tasks[k + 1].dest_guild_id == tasks[0].dest_guild_id,
        ({
            let created = created_roles(replies, (k + 1) / 2);
            let wanted = creatable_roles(roles@);
            match progress[k] {
                Progress::Perform(action) => {
                    &&& tasks[k + 1].has_come_to(roles@, created, action)
                    &&& tasks[k + 1].stage is Creating <==> k % 2 == 0
                    &&& k % 2 == 0 ==> asks_for_role(action, wanted[k / 2], tasks[0])
                },
                Progress::Done(map) => {
                    &&& k == replies.len() - 1
                    &&& k == 2 * wanted.len()
                    &&& map@ == role_mirrors_made(wanted, created)
                },
                Progress::Failed(_) => false,
            }
        }),
    decreases k,
{
    let wanted = creatable_roles(roles@);
    let created = created_roles(replies, (k + 1) / 2);
    if k == 0 {
        let reply = replies[0];
        assert(created =~= Seq::empty());
        assert(wanted.skip(0) =~= wanted);
        creating_roles_continues(
            tasks[0].at(CreateRolesStage::Ended),
            roles@,
            created,
            roles@,
            tasks[1],
            progress[0],
        );
    } else {
        roles_are_created_up_to(tasks, replies, progress, roles, k - 1);
        assert(k < replies.len()) by {
            if k == replies.len() {
                assert(progress[k - 1] == progress.last());
            }
        }
        let reply = replies[k];
        if !(progress[k - 1] is Perform) {
            runs_end(tasks, replies, progress, k - 1);
        }
        if reply is Failed {
            runs_end(tasks, replies, progress, k);
        }
        let before = created_roles(replies, k / 2);
        if k % 2 == 1 {
            assert((k - 1) / 2 == k / 2 && 2 * (k / 2) + 1 == k);
            assert(created =~= before.push(reply->Role_0));
        } else {
            assert(created =~= before);
        }
        creating_roles_goes_on(
            tasks[k],
            roles@,
            before,
            progress[k - 1]->Perform_0,
            reply,
            tasks[k + 1],
            progress[k],
        );
    }
    if !(progress[k] is Perform) {
        runs_end(tasks, replies, progress, k);
    }
    if progress[k] is Perform && k % 2 == 0 {
        assert(wanted.skip(k / 2)[0] == wanted[k / 2]);
    }
}

/// The list of mirrors leads from the roles that mirrors were created for, and from nothing
/// else.
pub(crate) proof fn role_mirrors_made_lead_from(roles: Seq<Role>, created: Seq<Role>)
    requires
        created.len() <= roles.len(),
    ensures
        forall|i: int|
            0 <= i < created.len() ==> exists|j: int|
                0 <= j < role_mirrors_made(roles, created).len() && (
                #[trigger] role_mirrors_made(roles, created)[j]).0.id == (#[trigger] roles[i]).id,
        forall|j: int|
            0 <= j < role_mirrors_made(roles, created).len() ==> roles.contains(
                (#[trigger] role_mirrors_made(roles, created)[j]).0,
            ),
    decreases created.len(),
{
    if created.len() > 0 {
        let before = role_mirrors_made(roles, created.drop_last());
        let map = role_mirrors_made(roles, created);
        let src = roles[created.len() - 1];
        role_mirrors_made_lead_from(roles, created.drop_last());
        role_index_found(before, src);
        let at = role_index(before, src);
        assert(map[at].0.id == src.id);
        assert forall|j: int| 0 <= j < before.len() implies map[j].0 == (
        #[trigger] before[j]).0 by {}
        assert forall|j: int| 0 <= j < map.len() implies roles.contains(
            (#[trigger] map[j]).0,
        ) by {
            if j < before.len() {
                assert(before[j].0 == map[j].0);
            } else {
                assert(map[j].0 == src);
            }
        }
        assert forall|i: int| 0 <= i < created.len() implies exists|j: int|
            0 <= j < map.len() && (#[trigger] map[j]).0.id == (#[trigger] roles[i]).id by {
            if i < created.len() - 1 {
                let j = choose|j: int|
                    0 <= j < before.len() && (#[trigger] before[j]).0.id == roles[i].id;
                assert(map[j].0 == before[j].0);
            }
        }
    }
}

} // verus!
