//! Emptying a guild.
use crate::errors::MappingsError;
use crate::model::{Channel, Role};
use crate::operation::{is_run, runs_end, Action, Progress, Reply, ReplyKind, Task};
use vstd::prelude::*;

verus! {

/// One thing that is to be deleted.
#[derive(Clone, Copy, Debug, PartialEq, Eq, Structural)]
pub enum Deletion {
    Channel(u64),
    Role(u64),
}

impl Deletion {
    /// The identifier of the thing.
    pub open spec fn spec_id(self) -> u64 {
        match self {
            Deletion::Channel(id) => id,
            Deletion::Role(id) => id,
        }
    }

    /// The thing of the same kind with another identifier.
    pub open spec fn spec_with_id(self, id: u64) -> Deletion {
        match self {
            Deletion::Channel(_) => Deletion::Channel(id),
            Deletion::Role(_) => Deletion::Role(id),
        }
    }

    /// The identifier of the thing.
    pub fn id(&self) -> (id: u64)
        ensures
            id == self.spec_id(),
    {
        match self {
            Deletion::Channel(id) => *id,
            Deletion::Role(id) => *id,
        }
    }

    /// The thing of the same kind with another identifier.
    pub fn with_id(&self, id: u64) -> (deletion: Deletion)
        ensures
            deletion == self.spec_with_id(id),
    {
        match self {
            Deletion::Channel(_) => Deletion::Channel(id),
            Deletion::Role(_) => Deletion::Role(id),
        }
    }

    /// The operation that deletes the thing from a guild.
    pub open spec fn spec_action(self, guild_id: u64) -> Action {
        match self {
            Deletion::Channel(id) => Action::DeleteChannel(id),
            Deletion::Role(role_id) => Action::DeleteRole { guild_id, role_id },
        }
    }

    /// The operation that deletes the thing from a guild.
    pub fn action(&self, guild_id: u64) -> (action: Action)
        ensures
            action == self.spec_action(guild_id),
    {
        match self {
            Deletion::Channel(id) => Action::DeleteChannel(*id),
            Deletion::Role(role_id) => Action::DeleteRole { guild_id, role_id: *role_id },
        }
    }
}

/// All that is to be deleted: the channels, and after them the roles.
pub open spec fn deletions(channels: Seq<Channel>, roles: Seq<Role>) -> Seq<Deletion> {
    channels.map_values(|channel: Channel| Deletion::Channel(channel.id)) + roles.map_values(
        |role: Role| Deletion::Role(role.id),
    )
}

/// All that is to be deleted.
fn list_deletions(channels: &Vec<Channel>, roles: &Vec<Role>) -> (list: Vec<Deletion>)
    ensures
        list@ == deletions(channels@, roles@),
{
    let mut list: Vec<Deletion> = Vec::new();
    for i in 0..channels.len()
        invariant
            list@.len() == i,
            forall|j: int|
                0 <= j < i ==> #[trigger] list@[j] == Deletion::Channel(channels@[j].id),
    {
        list.push(Deletion::Channel(channels[i].id));
    }
    for i in 0..roles.len()
        invariant
            list@.len() == channels@.len() + i,
            forall|j: int|
                0 <= j < channels@.len() ==> #[trigger] list@[j] == Deletion::Channel(
                    channels@[j].id,
                ),
            forall|j: int|
                channels@.len() <= j < channels@.len() + i ==> #[trigger] list@[j]
                    == Deletion::Role(roles@[j - channels@.len()].id),
    {
        list.push(Deletion::Role(roles[i].id));
    }
    assert(list@ =~= deletions(channels@, roles@));
    list
}

/// How far the emptying has come.
pub enum EmptyStage {
    Begin,
    ListingChannels,
    ListingRoles { channels: Vec<Channel> },
    Deleting { list: Vec<Deletion>, at: usize },
    Waiting { list: Vec<Deletion>, at: usize },
    Ended,
}

/// Deletes all channels and then all roles of a guild, one after the other, up to the first
/// that cannot be deleted.
pub struct DeleteEverythingGuild {
    pub guild_id: u64,
    pub stage: EmptyStage,
}

/// Begins to delete everything in a guild.
pub fn delete_everything_guild(guild_id: u64) -> (task: DeleteEverythingGuild)
    ensures
        task.wf(),
        task == (DeleteEverythingGuild { guild_id, stage: EmptyStage::Begin }),
{
    DeleteEverythingGuild { guild_id, stage: EmptyStage::Begin }
}

impl DeleteEverythingGuild {
    /// The same emptying, at another stage.
    pub open spec fn at(self, stage: EmptyStage) -> DeleteEverythingGuild {
        DeleteEverythingGuild { stage, ..self }
    }

    /// What follows once the first `done` things were deleted.
    pub open spec fn continues(
        self,
        list: Seq<Deletion>,
        done: int,
        next: Self,
        progress: Progress<(), MappingsError>,
    ) -> bool {
        if done < list.len() {
            &&& next.guild_id == self.guild_id
            &&& next.stage matches EmptyStage::Deleting { list: next_list, at }
            &&& next_list@ == list
            &&& at == done
            &&& progress.performs(list[done].spec_action(self.guild_id))
        } else {
            next == self.at(EmptyStage::Ended) && progress.yields(())
        }
    }

    fn proceed(self, list: Vec<Deletion>, done: usize) -> (res: (
        Self,
        Progress<(), MappingsError>,
    ))
        ensures
            self.continues(list@, done as int, res.0, res.1),
            res.0.wf(),
            res.1.leaves(res.0.awaits()),
    {
        if done < list.len() {
            let action = list[done].action(self.guild_id);
            let stage = EmptyStage::Deleting { list, at: done };
            (DeleteEverythingGuild { stage, ..self }, Progress::Perform(action))
        } else {
            (DeleteEverythingGuild { stage: EmptyStage::Ended, ..self }, Progress::Done(()))
        }
    }
}

impl Task for DeleteEverythingGuild {
    type Output = ();

    type Error = MappingsError;

    open spec fn wf(self) -> bool {
        match self.stage {
            EmptyStage::Deleting { list, at } => at < list@.len(),
            EmptyStage::Waiting { list, at } => at < list@.len(),
            _ => true,
        }
    }

    open spec fn awaits(self) -> Option<ReplyKind> {
        match self.stage {
            EmptyStage::Begin => Some(ReplyKind::Begin),
            EmptyStage::ListingChannels => Some(ReplyKind::Channels),
            EmptyStage::ListingRoles { .. } => Some(ReplyKind::Roles),
            EmptyStage::Deleting { .. } => Some(ReplyKind::Done),
            EmptyStage::Waiting { .. } => Some(ReplyKind::Done),
            EmptyStage::Ended => None,
        }
    }

    open spec fn step(
        self,
        reply: Reply,
        next: Self,
        progress: Progress<(), MappingsError>,
    ) -> bool {
        let ended = self.at(EmptyStage::Ended);
        match (self.stage, reply) {
            (_, Reply::Failed(failure)) => next == ended && progress.fails(
                MappingsError::of(failure),
            ),
            (EmptyStage::Begin, Reply::Begin) => {
                &&& next == self.at(EmptyStage::ListingChannels)
                &&& progress.performs(Action::GetGuildChannels(self.guild_id))
            },
            (EmptyStage::ListingChannels, Reply::Channels(channels)) => {
                &&& next == self.at(EmptyStage::ListingRoles { channels })
                &&& progress.performs(Action::GetRoles(self.guild_id))
            },
            (EmptyStage::ListingRoles { channels }, Reply::Roles(roles)) => ended.continues(
                deletions(channels@, roles@),
                0,
                next,
                progress,
            ),
            (EmptyStage::Deleting { list, at }, Reply::Done) => {
                &&& next == self.at(EmptyStage::Waiting { list, at })
                &&& progress.performs(Action::Sleep(1))
            },
            (EmptyStage::Waiting { list, at }, Reply::Done) => ended.continues(
                list@,
                at + 1,
                next,
                progress,
            ),
            _ => false,
        }
    }

    fn resume(self, reply: Reply) -> (res: (Self, Progress<(), MappingsError>)) {
        assert(self.wf());
        let DeleteEverythingGuild { guild_id, stage } = self;
        let ended = DeleteEverythingGuild { guild_id, stage: EmptyStage::Ended };
        match (stage, reply) {
            (_, Reply::Failed(failure)) => (
                ended,
                Progress::Failed(MappingsError::from_failure(failure)),
            ),
            (EmptyStage::Begin, Reply::Begin) => (
                DeleteEverythingGuild { stage: EmptyStage::ListingChannels, ..ended },
                Progress::Perform(Action::GetGuildChannels(guild_id)),
            ),
            (EmptyStage::ListingChannels, Reply::Channels(channels)) => (
                DeleteEverythingGuild { stage: EmptyStage::ListingRoles { channels }, ..ended },
                Progress::Perform(Action::GetRoles(guild_id)),
            ),
            (EmptyStage::ListingRoles { channels }, Reply::Roles(roles)) => {
                let list = list_deletions(&channels, &roles);
                ended.proceed(list, 0)
            },
            (EmptyStage::Deleting { list, at }, Reply::Done) => (
                DeleteEverythingGuild { stage: EmptyStage::Waiting { list, at }, ..ended },
                Progress::Perform(Action::Sleep(1)),
            ),
            (EmptyStage::Waiting { list, at }, Reply::Done) => {
                assert(at < list.len());
                ended.proceed(list, at + 1)
            },
            _ => vstd::pervasive::unreached(),
        }
    }
}

/// Where nothing fails, everything that was listed is deleted, each once and in order, with a
/// pause after each.
pub proof fn everything_is_deleted(
    tasks: Seq<DeleteEverythingGuild>,
    replies: Seq<Reply>,
    progress: Seq<Progress<(), MappingsError>>,
    channels: Vec<Channel>,
    roles: Vec<Role>,
    k: int,
)
    requires
        is_run(tasks, replies, progress),
        tasks[0].stage is Begin,
        replies.len() >= 3,
        replies[1] == Reply::Channels(channels),
        replies[2] == Reply::Roles(roles),
        progress.last() is Done,
        0 <= k <= deletions(channels@, roles@).len(),
    ensures
        replies.len() == 2 * deletions(channels@, roles@).len() + 3,
        k < deletions(channels@, roles@).len() ==> {
            &&& progress[2 * k + 2].performs(
                deletions(channels@, roles@)[k].spec_action(tasks[0].guild_id),
            )
            &&& progress[2 * k + 3].performs(Action::Sleep(1))
        },
{
    let count = deletions(channels@, roles@).len() as int;
    deleted_up_to(tasks, replies, progress, channels, roles, count);
    if k < count {
        deleted_up_to(tasks, replies, progress, channels, roles, k);
    }
}

/// After every pause the next thing is deleted.
proof fn deleted_up_to(
    tasks: Seq<DeleteEverythingGuild>,
    replies: Seq<Reply>,
    progress: Seq<Progress<(), MappingsError>>,
    channels: Vec<Channel>,
    roles: Vec<Role>,
    k: int,
)
    requires
        is_run(tasks, replies, progress),
        tasks[0].stage is Begin,
        replies.len() >= 3,
        replies[1] == Reply::Channels(channels),
        replies[2] == Reply::Roles(roles),
        progress.last() is Done,
        0 <= k <= deletions(channels@, roles@).len(),
    ensures
        k < deletions(channels@, roles@).len() ==> {
            &&& 2 * k + 4 < replies.len()
            &&& progress[2 * k + 2].performs(
                deletions(channels@, roles@)[k].spec_action(tasks[0].guild_id),
            )
            &&& progress[2 * k + 3].performs(Action::Sleep(1))
            &&& tasks[2 * k + 4].guild_id == tasks[0].guild_id
            &&& tasks[2 * k + 4].stage matches EmptyStage::Waiting { list, at }
            &&& list@ == deletions(channels@, roles@)
            &&& at == k
        },
        k == deletions(channels@, roles@).len() ==> replies.len() == 2 * k + 3,
    decreases k,
{
    let list = deletions(channels@, roles@);
    let first = replies[0];
    let second = replies[1];
    let third = replies[2];
    if k > 0 {
        deleted_up_to(tasks, replies, progress, channels, roles, k - 1);
        let waited = replies[2 * k + 2];
    }
    if k < list.len() {
        assert(progress[2 * k + 2] is Perform);
        assert(2 * k + 3 < replies.len());
        let deleted = replies[2 * k + 3];
        assert(progress[2 * k + 3] is Perform) by {
            if !(progress[2 * k + 3] is Perform) {
                runs_end(tasks, replies, progress, 2 * k + 3);
            }
        }
    } else {
        runs_end(tasks, replies, progress, 2 * k + 2);
    }
}

} // verus!
