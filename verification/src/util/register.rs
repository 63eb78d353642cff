//! Registering what mirrors what.
use crate::errors::{DatabaseError, MappingsError};
use crate::model::{record, recorded, Channel, IdMapping, MappingData, MappingView, Role};
use crate::operation::{is_run, runs_end, Action, Progress, Reply, ReplyKind, Task};
use crate::table::{is_served, serves, Table};
use crate::util::create::ChannelMap;
use crate::util::roles::RoleMap;
use vstd::prelude::*;

verus! {

/// The mapping that is to be registered, or why there is none.
pub type Record = Result<IdMapping, DatabaseError>;

/// Whether a record holds the given mapping, or the given reason for having none.
pub open spec fn holds(record: Record, mapping: Result<MappingView, DatabaseError>) -> bool {
    match mapping {
        Ok(mapping) => record is Ok && record->Ok_0@ == mapping,
        Err(error) => record == Err::<IdMapping, DatabaseError>(error),
    }
}

/// How far the registration has come.
#[derive(Clone, Copy, Debug, PartialEq, Eq, Structural)]
pub enum RegisterStage {
    Begin,
    Registering(usize),
    Ended,
}

/// Registers some mappings, one after the other, up to the first that cannot be.
pub struct RegisterMappings {
    pub records: Vec<Record>,
    pub stage: RegisterStage,
}

/// Begins to register channels and what mirrors them.
pub fn register_channels(channels: &ChannelMap, guild_ids: (u64, u64)) -> (task: RegisterMappings)
    ensures
        task.wf(),
        task.registers_channels(channels@, guild_ids),
{
    let mut records: Vec<Record> = Vec::new();
    for i in 0..channels.len()
        invariant
            records@.len() == i,
            forall|j: int|
                0 <= j < i ==> holds(
                    #[trigger] records@[j],
                    recorded(
                        (channels@[j].0.id, MappingData::Channel(channels@[j].0)),
                        (channels@[j].1.id, MappingData::Channel(channels@[j].1)),
                        guild_ids.0,
                        guild_ids.1,
                    ),
                ),
    {
        let src = (channels[i].0.id, MappingData::Channel(channels[i].0.clone()));
        let dest = (channels[i].1.id, MappingData::Channel(channels[i].1.clone()));
        records.push(record(src, dest, guild_ids.0, guild_ids.1));
    }
    RegisterMappings { records, stage: RegisterStage::Begin }
}

/// Begins to register roles and what mirrors them.
pub fn register_roles(roles: &RoleMap, guild_ids: (u64, u64)) -> (task: RegisterMappings)
    ensures
        task.wf(),
        task.registers_roles(roles@, guild_ids),
{
    let mut records: Vec<Record> = Vec::new();
    for i in 0..roles.len()
        invariant
            records@.len() == i,
            forall|j: int|
                0 <= j < i ==> holds(
                    #[trigger] records@[j],
                    recorded(
                        (roles@[j].0.id, MappingData::Role(roles@[j].0)),
                        (roles@[j].1.id, MappingData::Role(roles@[j].1)),
                        guild_ids.0,
                        guild_ids.1,
                    ),
                ),
    {
        let src = (roles[i].0.id, MappingData::Role(roles[i].0.clone()));
        let dest = (roles[i].1.id, MappingData::Role(roles[i].1.clone()));
        records.push(record(src, dest, guild_ids.0, guild_ids.1));
    }
    RegisterMappings { records, stage: RegisterStage::Begin }
}

impl RegisterMappings {
    /// Whether this is the registration of channels and what mirrors them at its beginning:
    /// one record for each pair, with the objects of both.
    pub open spec fn registers_channels(
        self,
        channels: Seq<(Channel, Channel)>,
        guild_ids: (u64, u64),
    ) -> bool {
        &&& self.stage is Begin
        &&& self.records@.len() == channels.len()
        &&& forall|i: int|
            0 <= i < channels.len() ==> holds(
                #[trigger] self.records@[i],
                recorded(
                    (channels[i].0.id, MappingData::Channel(channels[i].0)),
                    (channels[i].1.id, MappingData::Channel(channels[i].1)),
                    guild_ids.0,
                    guild_ids.1,
                ),
            )
    }

    /// Whether this is the registration of roles and what mirrors them at its beginning:
    /// one record for each pair, with the objects of both.
    pub open spec fn registers_roles(
        self,
        roles: Seq<(Role, Role)>,
        guild_ids: (u64, u64),
    ) -> bool {
        &&& self.stage is Begin
        &&& self.records@.len() == roles.len()
        &&& forall|i: int|
            0 <= i < roles.len() ==> holds(
                #[trigger] self.records@[i],
                recorded(
                    (roles[i].0.id, MappingData::Role(roles[i].0)),
                    (roles[i].1.id, MappingData::Role(roles[i].1)),
                    guild_ids.0,
                    guild_ids.1,
                ),
            )
    }

    /// The same registration, at another stage.
    pub open spec fn at(self, stage: RegisterStage) -> RegisterMappings {
        RegisterMappings { stage, ..self }
    }

    /// What follows once the first `done` mappings were registered.
    pub open spec fn continues(
        self,
        done: int,
        next: Self,
        progress: Progress<(), MappingsError>,
    ) -> bool {
        if done < self.records@.len() {
            match self.records@[done] {
                Ok(mapping) => {
                    &&& next == self.at(RegisterStage::Registering(done as usize))
                    &&& progress.registers(mapping@)
                },
                Err(error) => {
                    &&& next == self.at(RegisterStage::Ended)
                    &&& progress.fails(MappingsError::Database(error))
                },
            }
        } else {
            next == self.at(RegisterStage::Ended) && progress.yields(())
        }
    }

    fn proceed(self, done: usize) -> (res: (Self, Progress<(), MappingsError>))
        ensures
            self.continues(done as int, res.0, res.1),
            res.0.wf(),
            res.1.leaves(res.0.awaits()),
    {
        if done < self.records.len() {
            match &self.records[done] {
                Ok(mapping) => {
                    let action = Action::RegisterMapping(mapping.clone());
                    let stage = RegisterStage::Registering(done);
                    (RegisterMappings { stage, ..self }, Progress::Perform(action))
                },
                Err(error) => {
                    let error = MappingsError::Database(error.clone());
                    (
                        RegisterMappings { stage: RegisterStage::Ended, ..self },
                        Progress::Failed(error),
                    )
                },
            }
        } else {
            (RegisterMappings { stage: RegisterStage::Ended, ..self }, Progress::Done(()))
        }
    }
}

impl Task for RegisterMappings {
    type Output = ();

    type Error = MappingsError;

    open spec fn wf(self) -> bool {
        match self.stage {
            RegisterStage::Registering(i) => i < self.records@.len(),
            _ => true,
        }
    }

    open spec fn awaits(self) -> Option<ReplyKind> {
        match self.stage {
            RegisterStage::Begin => Some(ReplyKind::Begin),
            RegisterStage::Registering(_) => Some(ReplyKind::Done),
            RegisterStage::Ended => None,
        }
    }

    open spec fn step(
        self,
        reply: Reply,
        next: Self,
        progress: Progress<(), MappingsError>,
    ) -> bool {
        match (self.stage, reply) {
            (RegisterStage::Begin, Reply::Begin) => self.continues(0, next, progress),
            (RegisterStage::Registering(i), Reply::Done) => self.continues(i + 1, next, progress),
            (_, Reply::Failed(failure)) => next == self.at(RegisterStage::Ended) && progress.fails(
                MappingsError::of(failure),
            ),
            _ => false,
        }
    }

    fn resume(self, reply: Reply) -> (res: (Self, Progress<(), MappingsError>)) {
        assert(self.wf());
        match (self.stage, reply) {
            (RegisterStage::Begin, Reply::Begin) => self.proceed(0),
            (RegisterStage::Registering(i), Reply::Done) => {
                assert(i < self.records.len());
                self.proceed(i + 1)
            },
            (_, Reply::Failed(failure)) => (
                RegisterMappings { stage: RegisterStage::Ended, ..self },
                Progress::Failed(MappingsError::from_failure(failure)),
            ),
            _ => vstd::pervasive::unreached(),
        }
    }
}

/// Where nothing fails, every mapping is registered, each once and in order.
pub proof fn everything_is_registered(
    tasks: Seq<RegisterMappings>,
    replies: Seq<Reply>,
    progress: Seq<Progress<(), MappingsError>>,
    k: int,
)
    requires
        is_run(tasks, replies, progress),
        tasks[0].stage is Begin,
        replies.len() > 0,
        progress.last() is Done,
        0 <= k <= tasks[0].records@.len(),
    ensures
        replies.len() == tasks[0].records@.len() + 1,
        k < tasks[0].records@.len() ==> tasks[0].records@[k] is Ok && progress[k].registers(
            tasks[0].records@[k]->Ok_0@,
        ),
{
    registered_up_to(tasks, replies, progress, replies.len() - 1);
    if k < tasks[0].records@.len() {
        registered_up_to(tasks, replies, progress, k);
    }
}

/// After every answer but the last, the next mapping is registered.
proof fn registered_up_to(
    tasks: Seq<RegisterMappings>,
    replies: Seq<Reply>,
    progress: Seq<Progress<(), MappingsError>>,
    k: int,
)
    requires
        is_run(tasks, replies, progress),
        tasks[0].stage is Begin,
        replies.len() > 0,
        progress.last() is Done,
        0 <= k < replies.len(),
    ensures
        tasks[k + 1].records == tasks[0].records,
        k < replies.len() - 1 ==> {
            &&& k < tasks[0].records@.len()
            &&& tasks[k + 1].stage == RegisterStage::Registering(k as usize)
            &&& tasks[0].records@[k] is Ok
            &&& progress[k].registers(tasks[0].records@[k]->Ok_0@)
        },
        k == replies.len() - 1 ==> k == tasks[0].records@.len(),
    decreases k,
{
    let reply = replies[k];
    assert(tasks[0].records.len() == tasks[0].records@.len());
    if k > 0 {
        registered_up_to(tasks, replies, progress, k - 1);
        let before = replies[k - 1];
    }
    if !(progress[k] is Perform) {
        runs_end(tasks, replies, progress, k);
    }
    if k < replies.len() - 1 {
        let after = replies[k + 1];
    }
}

// ---------------------------------------------------------------------------
// What becomes of the table
// ---------------------------------------------------------------------------

/// A table with the mappings of the first `n` records added.
pub open spec fn filled(before: Table, records: Seq<Record>, n: int) -> Table {
    Set::new(
        |row: MappingView|
            before.contains(row) || exists|j: int|
                0 <= j < n && (#[trigger] records[j]) is Ok && records[j]->Ok_0@ == row,
    )
}

/// Whether the first `n` records hold mappings.
pub open spec fn are_mappings(records: Seq<Record>, n: int) -> bool {
    forall|j: int| 0 <= j < n ==> (#[trigger] records[j]) is Ok
}

impl RegisterMappings {
    /// Whether this is a registration that waits for the answer to an operation, with the
    /// table that it began with and the one that it has come to.
    pub open spec fn has_come_to(self, asked: Action, before: Table, table: Table) -> bool {
        &&& self.stage matches RegisterStage::Registering(i)
        &&& i < self.records@.len()
        &&& are_mappings(self.records@, i + 1)
        &&& asked matches Action::RegisterMapping(mapping)
        &&& mapping@ == self.records@[i as int]->Ok_0@
        &&& table == filled(before, self.records@, i as int)
    }
}

/// What a registration has come to once the first `done` mappings were registered.
pub(crate) proof fn registering_continues(
    task: RegisterMappings,
    done: int,
    before: Table,
    next: RegisterMappings,
    progress: Progress<(), MappingsError>,
)
    requires
        0 <= done <= task.records@.len(),
        are_mappings(task.records@, done),
        task.continues(done, next, progress),
    ensures
        next.records == task.records,
        match progress {
            Progress::Perform(action) => next.has_come_to(
                action,
                before,
                filled(before, task.records@, done),
            ),
            Progress::Done(()) => done == task.records@.len(),
            Progress::Failed(_) => !are_mappings(task.records@, task.records@.len() as int),
        },
{
    assert(task.records.len() == task.records@.len());
}

/// One step of a registration, from what its last operation made of the table.
pub(crate) proof fn registering_goes_on(
    task: RegisterMappings,
    asked: Action,
    before: Table,
    table: Table,
    reply: Reply,
    after: Table,
    next: RegisterMappings,
    progress: Progress<(), MappingsError>,
)
    requires
        task.has_come_to(asked, before, table),
        serves(table, asked, reply, after),
        task.awaits() is Some,
        reply.answers(task.awaits()->0),
        task.step(reply, next, progress),
    ensures
        next.records == task.records,
        match progress {
            Progress::Perform(action) => next.has_come_to(action, before, after),
            Progress::Done(()) => {
                let n = task.records@.len() as int;
                are_mappings(task.records@, n) && after == filled(before, task.records@, n)
            },
            Progress::Failed(_) => !are_mappings(task.records@, task.records@.len() as int),
        },
{
    if let RegisterStage::Registering(i) = task.stage {
        assert(after =~= filled(before, task.records@, i + 1));
        registering_continues(task, i + 1, before, next, progress);
    }
}

/// Where nothing fails, registering adds the mapping of every record, and nothing else, to the
/// table.
pub proof fn registered_mappings_are_added(
    tasks: Seq<RegisterMappings>,
    replies: Seq<Reply>,
    progress: Seq<Progress<(), MappingsError>>,
    tables: Seq<Table>,
)
    requires
        is_run(tasks, replies, progress),
        is_served(replies, progress, tables),
        tasks[0].stage is Begin,
        replies.len() > 0,
        progress.last() is Done,
    ensures
        are_mappings(tasks[0].records@, tasks[0].records@.len() as int),
        tables.last() == filled(tables[0], tasks[0].records@, tasks[0].records@.len() as int),
{
    added_up_to(tasks, replies, progress, tables, replies.len() - 1);
}

proof fn added_up_to(
    tasks: Seq<RegisterMappings>,
    replies: Seq<Reply>,
    progress: Seq<Progress<(), MappingsError>>,
    tables: Seq<Table>,
    k: int,
)
    requires
        is_run(tasks, replies, progress),
        is_served(replies, progress, tables),
        tasks[0].stage is Begin,
        0 <= k < replies.len(),
    ensures
        tasks[k + 1].records == tasks[0].records,
        match progress[k] {
            Progress::Perform(action) => tasks[k + 1].has_come_to(action, tables[0], tables[k]),
            Progress::Done(()) => {
                let n = tasks[0].records@.len() as int;
                are_mappings(tasks[0].records@, n) && tables[k] == filled(
                    tables[0],
                    tasks[0].records@,
                    n,
                )
            },
            Progress::Failed(_) => true,
        },
    decreases k,
{
    let reply = replies[k];
    if k > 0 {
        added_up_to(tasks, replies, progress, tables, k - 1);
        if !(progress[k - 1] is Perform) {
            runs_end(tasks, replies, progress, k - 1);
        }
        registering_goes_on(
            tasks[k],
            progress[k - 1]->Perform_0,
            tables[0],
            tables[k - 1],
            reply,
            tables[k],
            tasks[k + 1],
            progress[k],
        );
    } else {
        assert(filled(tables[0], tasks[0].records@, 0) =~= tables[0]);
        registering_continues(tasks[0], 0, tables[0], tasks[1], progress[0]);
    }
}

} // verus!
