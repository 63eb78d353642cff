//! Which channels, roles and threads are still to be mirrored.
use crate::blacklist::{is_blacklisted, is_sorted, Blacklist};
use crate::errors::{Failure, MappingsError};
use crate::model::{Channel, Guild, Role};
use crate::operation::{is_run, runs_end, Action, Progress, Reply, ReplyKind, Task};
use crate::table::{is_registered, is_served, serves, Table};
use vstd::prelude::*;

verus! {

/// Whether the mirror can hold less than what it mirrors: only the mirrored guild is a
/// community.
pub fn is_guild_pair_discrepant(src_guild: &Guild, dest_guild: &Guild) -> (res: bool)
    ensures
        res == (src_guild.community() && !dest_guild.community()),
{
    src_guild.is_community() && !dest_guild.is_community()
}

// ---------------------------------------------------------------------------
// Channels
// ---------------------------------------------------------------------------

/// How far the filtering has come.
pub enum FilterChannelsStage {
    Begin { pending: Vec<Channel> },
    LookingUp { channel: Channel, pending: Vec<Channel>, kept: Vec<Channel> },
    Ended,
}

/// Keeps, of some channels, those that are neither blacklisted nor registered. Every one
/// of them is looked up. Where the table cannot be read, a channel counts as not registered.
pub struct FilterBarChannels {
    pub blacklists_sorted: Vec<Blacklist>,
    pub stage: FilterChannelsStage,
}

/// Begins to filter some channels.
pub fn filter_bar_channels(
    src_guild_channels: Vec<Channel>,
    blacklists_sorted: Vec<Blacklist>,
) -> (task: FilterBarChannels)
    requires
        is_sorted(blacklists_sorted@),
    ensures
        task.wf(),
        task == (FilterBarChannels {
            blacklists_sorted,
            stage: FilterChannelsStage::Begin { pending: src_guild_channels },
        }),
{
    let stage = FilterChannelsStage::Begin { pending: src_guild_channels };
    FilterBarChannels { blacklists_sorted, stage }
}

impl FilterBarChannels {
    /// The same filtering, at another stage.
    pub open spec fn at(self, stage: FilterChannelsStage) -> FilterBarChannels {
        FilterBarChannels { stage, ..self }
    }

    /// What follows while some channels are left and some were kept.
    pub open spec fn continues(
        self,
        pending: Seq<Channel>,
        kept: Seq<Channel>,
        next: Self,
        progress: Progress<Vec<Channel>, MappingsError>,
    ) -> bool {
        if pending.len() == 0 {
            &&& next == self.at(FilterChannelsStage::Ended)
            &&& progress matches Progress::Done(done)
            &&& done@ == kept
        } else {
            &&& next.blacklists_sorted == self.blacklists_sorted
            &&& next.stage matches FilterChannelsStage::LookingUp {
                channel,
                pending: next_pending,
                kept: next_kept,
            }
            &&& channel == pending[0]
            &&& next_pending@ == pending.drop_first()
            &&& next_kept@ == kept
            &&& progress.performs(Action::FindMapping { orig_id: channel.id })
        }
    }

    /// The channels that are kept after another one has been looked up.
    pub open spec fn kept_with(
        self,
        kept: Seq<Channel>,
        channel: Channel,
        registered: bool,
    ) -> Seq<Channel> {
        if registered || self.blacklists_sorted@.contains(Blacklist::Channel(channel.id)) {
            kept
        } else {
            kept.push(channel)
        }
    }

    fn proceed(self, pending: Vec<Channel>, kept: Vec<Channel>) -> (res: (
        Self,
        Progress<Vec<Channel>, MappingsError>,
    ))
        requires
            is_sorted(self.blacklists_sorted@),
        ensures
            self.continues(pending@, kept@, res.0, res.1),
            res.0.wf(),
            res.1.leaves(res.0.awaits()),
    {
        let mut pending = pending;
        if pending.len() == 0 {
            (FilterBarChannels { stage: FilterChannelsStage::Ended, ..self }, Progress::Done(kept))
        } else {
            let ghost before = pending@;
            let channel = pending.remove(0);
            assert(pending@ =~= before.drop_first());
            let action = Action::FindMapping { orig_id: channel.id };
            let stage = FilterChannelsStage::LookingUp { channel, pending, kept };
            (FilterBarChannels { stage, ..self }, Progress::Perform(action))
        }
    }

    fn keep(&self, kept: Vec<Channel>, channel: Channel, registered: bool) -> (res: Vec<Channel>)
        requires
            is_sorted(self.blacklists_sorted@),
        ensures
            res@ == self.kept_with(kept@, channel, registered),
    {
        let mut kept = kept;
        if !is_blacklisted(&self.blacklists_sorted, Blacklist::Channel(channel.id)) && !registered {
            kept.push(channel);
        }
        kept
    }
}

impl Task for FilterBarChannels {
    type Output = Vec<Channel>;

    type Error = MappingsError;

    open spec fn wf(self) -> bool {
        is_sorted(self.blacklists_sorted@)
    }

    open spec fn awaits(self) -> Option<ReplyKind> {
        match self.stage {
            FilterChannelsStage::Begin { .. } => Some(ReplyKind::Begin),
            FilterChannelsStage::LookingUp { .. } => Some(ReplyKind::Record),
            FilterChannelsStage::Ended => None,
        }
    }

    open spec fn step(
        self,
        reply: Reply,
        next: Self,
        progress: Progress<Vec<Channel>, MappingsError>,
    ) -> bool {
        let ended = self.at(FilterChannelsStage::Ended);
        match (self.stage, reply) {
            (FilterChannelsStage::Begin { pending }, Reply::Begin) => ended.continues(
                pending@,
                Seq::empty(),
                next,
                progress,
            ),
            (
                FilterChannelsStage::LookingUp { channel, pending, kept },
                Reply::Mapping(found),
            ) => ended.continues(
                pending@,
                ended.kept_with(kept@, channel, found is Some),
                next,
                progress,
            ),
            (
                FilterChannelsStage::LookingUp { channel, pending, kept },
                Reply::Failed(Failure::Database(_)),
            ) => ended.continues(
                pending@,
                ended.kept_with(kept@, channel, false),
                next,
                progress,
            ),
            (_, Reply::Failed(failure)) => next == ended && progress.fails(
                MappingsError::of(failure),
            ),
            _ => false,
        }
    }

    fn resume(self, reply: Reply) -> (res: (Self, Progress<Vec<Channel>, MappingsError>)) {
        assert(self.wf());
        let FilterBarChannels { blacklists_sorted, stage } = self;
        let ended = FilterBarChannels { blacklists_sorted, stage: FilterChannelsStage::Ended };
        match (stage, reply) {
            (FilterChannelsStage::Begin { pending }, Reply::Begin) => ended.proceed(
                pending,
                Vec::new(),
            ),
            (
                FilterChannelsStage::LookingUp { channel, pending, kept },
                Reply::Mapping(found),
            ) => {
                let kept = ended.keep(kept, channel, found.is_some());
                ended.proceed(pending, kept)
            },
            (
                FilterChannelsStage::LookingUp { channel, pending, kept },
                Reply::Failed(Failure::Database(_)),
            ) => {
                let kept = ended.keep(kept, channel, false);
                ended.proceed(pending, kept)
            },
            (_, Reply::Failed(failure)) => (
                ended,
                Progress::Failed(MappingsError::from_failure(failure)),
            ),
            _ => vstd::pervasive::unreached(),
        }
    }
}

// ---------------------------------------------------------------------------
// Roles
// ---------------------------------------------------------------------------

/// How far the filtering has come.
pub enum FilterRolesStage {
    Begin { pending: Vec<Role> },
    LookingUp { role: Role, pending: Vec<Role>, kept: Vec<Role> },
    Ended,
}

/// Keeps, of some roles, those that are neither blacklisted nor registered. Every one of
/// them is looked up. Where the table cannot be read, a role counts as not registered.
pub struct FilterBarRoles {
    pub blacklists_sorted: Vec<Blacklist>,
    pub stage: FilterRolesStage,
}

/// Begins to filter some roles.
pub fn filter_bar_roles(src_roles: Vec<Role>, blacklists_sorted: Vec<Blacklist>) -> (task:
    FilterBarRoles)
    requires
        is_sorted(blacklists_sorted@),
    ensures
        task.wf(),
        task == (FilterBarRoles {
            blacklists_sorted,
            stage: FilterRolesStage::Begin { pending: src_roles },
        }),
{
    FilterBarRoles { blacklists_sorted, stage: FilterRolesStage::Begin { pending: src_roles } }
}

impl FilterBarRoles {
    /// The same filtering, at another stage.
    pub open spec fn at(self, stage: FilterRolesStage) -> FilterBarRoles {
        FilterBarRoles { stage, ..self }
    }

    /// What follows while some roles are left and some were kept.
    pub open spec fn continues(
        self,
        pending: Seq<Role>,
        kept: Seq<Role>,
        next: Self,
        progress: Progress<Vec<Role>, MappingsError>,
    ) -> bool {
        if pending.len() == 0 {
            &&& next == self.at(FilterRolesStage::Ended)
            &&& progress matches Progress::Done(done)
            &&& done@ == kept
        } else {
            &&& next.blacklists_sorted == self.blacklists_sorted
            &&& next.stage matches FilterRolesStage::LookingUp {
                role,
                pending: next_pending,
                kept: next_kept,
            }
            &&& role == pending[0]
            &&& next_pending@ == pending.drop_first()
            &&& next_kept@ == kept
            &&& progress.performs(Action::FindMapping { orig_id: role.id })
        }
    }

    /// The roles that are kept after another one has been looked up.
    pub open spec fn kept_with(self, kept: Seq<Role>, role: Role, registered: bool) -> Seq<Role> {
        if registered || self.blacklists_sorted@.contains(Blacklist::Role(role.id)) {
            kept
        } else {
            kept.push(role)
        }
    }

    fn proceed(self, pending: Vec<Role>, kept: Vec<Role>) -> (res: (
        Self,
        Progress<Vec<Role>, MappingsError>,
    ))
        requires
            is_sorted(self.blacklists_sorted@),
        ensures
            self.continues(pending@, kept@, res.0, res.1),
            res.0.wf(),
            res.1.leaves(res.0.awaits()),
    {
        let mut pending = pending;
        if pending.len() == 0 {
            (FilterBarRoles { stage: FilterRolesStage::Ended, ..self }, Progress::Done(kept))
        } else {
            let ghost before = pending@;
            let role = pending.remove(0);
            assert(pending@ =~= before.drop_first());
            let action = Action::FindMapping { orig_id: role.id };
            let stage = FilterRolesStage::LookingUp { role, pending, kept };
            (FilterBarRoles { stage, ..self }, Progress::Perform(action))
        }
    }

    fn keep(&self, kept: Vec<Role>, role: Role, registered: bool) -> (res: Vec<Role>)
        requires
            is_sorted(self.blacklists_sorted@),
        ensures
            res@ == self.kept_with(kept@, role, registered),
    {
        let mut kept = kept;
        if !is_blacklisted(&self.blacklists_sorted, Blacklist::Role(role.id)) && !registered {
            kept.push(role);
        }
        kept
    }
}

impl Task for FilterBarRoles {
    type Output = Vec<Role>;

    type Error = MappingsError;

    open spec fn wf(self) -> bool {
        is_sorted(self.blacklists_sorted@)
    }

    open spec fn awaits(self) -> Option<ReplyKind> {
        match self.stage {
            FilterRolesStage::Begin { .. } => Some(ReplyKind::Begin),
            FilterRolesStage::LookingUp { .. } => Some(ReplyKind::Record),
            FilterRolesStage::Ended => None,
        }
    }

    open spec fn step(
        self,
        reply: Reply,
        next: Self,
        progress: Progress<Vec<Role>, MappingsError>,
    ) -> bool {
        let ended = self.at(FilterRolesStage::Ended);
        match (self.stage, reply) {
            (FilterRolesStage::Begin { pending }, Reply::Begin) => ended.continues(
                pending@,
                Seq::empty(),
                next,
                progress,
            ),
            (
                FilterRolesStage::LookingUp { role, pending, kept },
                Reply::Mapping(found),
            ) => ended.continues(
                pending@,
                ended.kept_with(kept@, role, found is Some),
                next,
                progress,
            ),
            (
                FilterRolesStage::LookingUp { role, pending, kept },
                Reply::Failed(Failure::Database(_)),
            ) => ended.continues(pending@, ended.kept_with(kept@, role, false), next, progress),
            (_, Reply::Failed(failure)) => next == ended && progress.fails(
                MappingsError::of(failure),
            ),
            _ => false,
        }
    }

    fn resume(self, reply: Reply) -> (res: (Self, Progress<Vec<Role>, MappingsError>)) {
        assert(self.wf());
        let FilterBarRoles { blacklists_sorted, stage } = self;
        let ended = FilterBarRoles { blacklists_sorted, stage: FilterRolesStage::Ended };
        match (stage, reply) {
            (FilterRolesStage::Begin { pending }, Reply::Begin) => ended.proceed(
                pending,
                Vec::new(),
            ),
            (FilterRolesStage::LookingUp { role, pending, kept }, Reply::Mapping(found)) => {
                let kept = ended.keep(kept, role, found.is_some());
                ended.proceed(pending, kept)
            },
            (
                FilterRolesStage::LookingUp { role, pending, kept },
                Reply::Failed(Failure::Database(_)),
            ) => {
                let kept = ended.keep(kept, role, false);
                ended.proceed(pending, kept)
            },
            (_, Reply::Failed(failure)) => (
                ended,
                Progress::Failed(MappingsError::from_failure(failure)),
            ),
            _ => vstd::pervasive::unreached(),
        }
    }
}

// ---------------------------------------------------------------------------
// Threads
// ---------------------------------------------------------------------------

/// Whether a thread may be joined: it is below a channel that is not blacklisted.
pub open spec fn is_joinable(blacklists: Seq<Blacklist>, thread: Channel) -> bool {
    match thread.parent_id {
        Some(parent_id) => !blacklists.contains(Blacklist::Channel(parent_id)),
        None => false,
    }
}

/// The threads that are below channels that are not blacklisted, in their order.
pub fn filter_blacklisted_threads(
    blacklists_sorted: &Vec<Blacklist>,
    threads: Vec<Channel>,
) -> (kept: Vec<Channel>)
    requires
        is_sorted(blacklists_sorted@),
    ensures
        kept@ == threads@.filter(|thread: Channel| is_joinable(blacklists_sorted@, thread)),
{
    let ghost joinable = |thread: Channel| is_joinable(blacklists_sorted@, thread);
    let mut kept: Vec<Channel> = Vec::new();
    let mut pending = threads;
    let ghost mut done: int = 0;
    proof {
        reveal(Seq::filter);
        assert(threads@.take(0) =~= Seq::<Channel>::empty());
    }
    while pending.len() > 0
        invariant
            is_sorted(blacklists_sorted@),
            joinable == (|thread: Channel| is_joinable(blacklists_sorted@, thread)),
            0 <= done <= threads@.len(),
            pending@ == threads@.skip(done),
            kept@ == threads@.take(done).filter(joinable),
        decreases pending@.len(),
    {
        let thread = pending.remove(0);
        proof {
            reveal(Seq::filter);
            assert(pending@ =~= threads@.skip(done + 1));
            assert(threads@.take(done + 1).drop_last() =~= threads@.take(done));
            assert(threads@.take(done + 1).last() == thread);
            done = done + 1;
        }
        if let Some(parent_id) = thread.parent_id {
            if !is_blacklisted(blacklists_sorted, Blacklist::Channel(parent_id)) {
                kept.push(thread);
            }
        }
    }
    assert(threads@.take(done) =~= threads@);
    kept
}

/// How far the joining has come.
pub enum JoinStage {
    Begin { pending: Vec<Channel> },
    Joining { thread: Channel, pending: Vec<Channel>, joined: Vec<Channel> },
    Waiting { pending: Vec<Channel>, joined: Vec<Channel> },
    Ended,
}

/// Joins some threads, one after the other.
pub struct JoinThreads {
    pub stage: JoinStage,
}

/// Begins to join some threads.
pub fn join_threads(threads: Vec<Channel>) -> (task: JoinThreads)
    ensures
        task.wf(),
        task.stage == (JoinStage::Begin { pending: threads }),
{
    JoinThreads { stage: JoinStage::Begin { pending: threads } }
}

impl JoinThreads {
    /// What follows while some threads are left and some were joined.
    pub open spec fn continues(
        pending: Seq<Channel>,
        joined: Seq<Channel>,
        next: Self,
        progress: Progress<Vec<Channel>, MappingsError>,
    ) -> bool {
        if pending.len() == 0 {
            &&& next.stage is Ended
            &&& progress matches Progress::Done(done)
            &&& done@ == joined
        } else {
            &&& next.stage matches JoinStage::Joining {
                thread,
                pending: next_pending,
                joined: next_joined,
            }
            &&& thread == pending[0]
            &&& next_pending@ == pending.drop_first()
            &&& next_joined@ == joined
            &&& progress.performs(Action::JoinThread(thread.id))
        }
    }

    fn proceed(pending: Vec<Channel>, joined: Vec<Channel>) -> (res: (
        Self,
        Progress<Vec<Channel>, MappingsError>,
    ))
        ensures
            Self::continues(pending@, joined@, res.0, res.1),
            res.0.wf(),
            res.1.leaves(res.0.awaits()),
    {
        let mut pending = pending;
        if pending.len() == 0 {
            (JoinThreads { stage: JoinStage::Ended }, Progress::Done(joined))
        } else {
            let ghost before = pending@;
            let thread = pending.remove(0);
            assert(pending@ =~= before.drop_first());
            let action = Action::JoinThread(thread.id);
            let stage = JoinStage::Joining { thread, pending, joined };
            (JoinThreads { stage }, Progress::Perform(action))
        }
    }
}

impl Task for JoinThreads {
    type Output = Vec<Channel>;

    type Error = MappingsError;

    open spec fn wf(self) -> bool {
        true
    }

    open spec fn awaits(self) -> Option<ReplyKind> {
        match self.stage {
            JoinStage::Begin { .. } => Some(ReplyKind::Begin),
            JoinStage::Joining { .. } => Some(ReplyKind::Done),
            JoinStage::Waiting { .. } => Some(ReplyKind::Done),
            JoinStage::Ended => None,
        }
    }

    open spec fn step(
        self,
        reply: Reply,
        next: Self,
        progress: Progress<Vec<Channel>, MappingsError>,
    ) -> bool {
        match (self.stage, reply) {
            (_, Reply::Failed(failure)) => next.stage is Ended && progress.fails(
                MappingsError::of(failure),
            ),
            (JoinStage::Begin { pending }, Reply::Begin) => Self::continues(
                pending@,
                Seq::empty(),
                next,
                progress,
            ),
            (JoinStage::Joining { thread, pending, joined }, Reply::Done) => {
                &&& next.stage matches JoinStage::Waiting {
                    pending: next_pending,
                    joined: next_joined,
                }
                &&& next_pending == pending
                &&& next_joined@ == joined@.push(thread)
                &&& progress.performs(Action::Sleep(1))
            },
            (JoinStage::Waiting { pending, joined }, Reply::Done) => Self::continues(
                pending@,
                joined@,
                next,
                progress,
            ),
            _ => false,
        }
    }

    fn resume(self, reply: Reply) -> (res: (Self, Progress<Vec<Channel>, MappingsError>)) {
        match (self.stage, reply) {
            (_, Reply::Failed(failure)) => (
                JoinThreads { stage: JoinStage::Ended },
                Progress::Failed(MappingsError::from_failure(failure)),
            ),
            (JoinStage::Begin { pending }, Reply::Begin) => Self::proceed(pending, Vec::new()),
            (JoinStage::Joining { thread, pending, joined }, Reply::Done) => {
                let mut joined = joined;
                joined.push(thread);
                (
                    JoinThreads { stage: JoinStage::Waiting { pending, joined } },
                    Progress::Perform(Action::Sleep(1)),
                )
            },
            (JoinStage::Waiting { pending, joined }, Reply::Done) => Self::proceed(pending, joined),
            _ => vstd::pervasive::unreached(),
        }
    }
}

/// The channels that were kept so far.
pub open spec fn kept_channels(stage: FilterChannelsStage) -> Seq<Channel> {
    match stage {
        FilterChannelsStage::LookingUp { kept, .. } => kept@,
        _ => Seq::empty(),
    }
}

/// Whether none of some channels is blacklisted.
pub open spec fn none_blacklisted(blacklists: Seq<Blacklist>, channels: Seq<Channel>) -> bool {
    forall|i: int|
        0 <= i < channels.len() ==> !blacklists.contains(
            Blacklist::Channel((#[trigger] channels[i]).id),
        )
}

/// At no time is a blacklisted channel among those that are kept, nor in the result.
pub proof fn blacklisted_channels_are_dropped(
    task: FilterBarChannels,
    reply: Reply,
    next: FilterBarChannels,
    progress: Progress<Vec<Channel>, MappingsError>,
)
    requires
        none_blacklisted(task.blacklists_sorted@, kept_channels(task.stage)),
        task.step(reply, next, progress),
    ensures
        next.blacklists_sorted == task.blacklists_sorted,
        none_blacklisted(task.blacklists_sorted@, kept_channels(next.stage)),
        progress matches Progress::Done(kept) ==> none_blacklisted(
            task.blacklists_sorted@,
            kept@,
        ),
{
}

/// A channel that is registered is not kept.
pub proof fn registered_channels_are_dropped(
    filtering: FilterBarChannels,
    kept: Seq<Channel>,
    channel: Channel,
)
    ensures
        filtering.kept_with(kept, channel, true) == kept,
{
}

/// A role that is registered, or blacklisted, is not kept.
pub proof fn barred_roles_are_dropped(
    filtering: FilterBarRoles,
    kept: Seq<Role>,
    role: Role,
    registered: bool,
)
    requires
        registered || filtering.blacklists_sorted@.contains(Blacklist::Role(role.id)),
    ensures
        filtering.kept_with(kept, role, registered) == kept,
{
}

// ---------------------------------------------------------------------------
// What is kept in the end: channels
// ---------------------------------------------------------------------------

/// Whether a channel is neither blacklisted nor registered.
pub open spec fn is_new_channel(blacklists: Seq<Blacklist>, table: Table, channel: Channel) -> bool {
    !blacklists.contains(Blacklist::Channel(channel.id)) && !is_registered(table, channel.id)
}

/// Those of some channels that are neither blacklisted nor registered, in their order.
pub open spec fn new_channels(
    blacklists: Seq<Blacklist>,
    table: Table,
    channels: Seq<Channel>,
) -> Seq<Channel> {
    channels.filter(|channel: Channel| is_new_channel(blacklists, table, channel))
}

impl FilterBarChannels {
    /// Whether this is a filtering of some channels that waits for the answer to an operation:
    /// all before the one that is looked up were dealt with.
    pub open spec fn has_come_to(self, all: Seq<Channel>, asked: Action, table: Table) -> bool {
        &&& self.stage matches FilterChannelsStage::LookingUp { channel, pending, kept }
        &&& asked == (Action::FindMapping { orig_id: channel.id })
        &&& pending@.len() < all.len()
        &&& ({
            let done = all.len() - pending@.len() - 1;
            &&& channel == all[done]
            &&& pending@ == all.skip(done + 1)
            &&& kept@ == new_channels(self.blacklists_sorted@, table, all.take(done))
        })
    }
}

/// What a filtering has come to once the first `done` channels were dealt with.
proof fn filtering_channels_continues(
    task: FilterBarChannels,
    all: Seq<Channel>,
    done: int,
    table: Table,
    next: FilterBarChannels,
    progress: Progress<Vec<Channel>, MappingsError>,
)
    requires
        0 <= done <= all.len(),
        task.continues(
            all.skip(done),
            new_channels(task.blacklists_sorted@, table, all.take(done)),
            next,
            progress,
        ),
    ensures
        next.blacklists_sorted == task.blacklists_sorted,
        match progress {
            Progress::Perform(action) => next.has_come_to(all, action, table),
            Progress::Done(kept) => kept@ == new_channels(task.blacklists_sorted@, table, all),
            Progress::Failed(_) => false,
        },
{
    if done < all.len() {
        assert(all.skip(done).drop_first() =~= all.skip(done + 1));
    } else {
        assert(all.take(done) =~= all);
    }
}

/// The first step of a filtering.
pub(crate) proof fn filtering_channels_begins(
    task: FilterBarChannels,
    all: Vec<Channel>,
    table: Table,
    next: FilterBarChannels,
    progress: Progress<Vec<Channel>, MappingsError>,
)
    requires
        task.stage == (FilterChannelsStage::Begin { pending: all }),
        task.step(Reply::Begin, next, progress),
    ensures
        next.blacklists_sorted == task.blacklists_sorted,
        match progress {
            Progress::Perform(action) => next.has_come_to(all@, action, table),
            Progress::Done(kept) => kept@ == new_channels(task.blacklists_sorted@, table, all@),
            Progress::Failed(_) => false,
        },
{
    reveal(Seq::filter);
    let ended = task.at(FilterChannelsStage::Ended);
    assert(all@.skip(0) =~= all@);
    assert(new_channels(ended.blacklists_sorted@, table, all@.take(0)) =~= Seq::empty());
    filtering_channels_continues(ended, all@, 0, table, next, progress);
}

/// One step of a filtering, from what its last lookup found.
pub(crate) proof fn filtering_channels_goes_on(
    task: FilterBarChannels,
    all: Seq<Channel>,
    asked: Action,
    table: Table,
    reply: Reply,
    after: Table,
    next: FilterBarChannels,
    progress: Progress<Vec<Channel>, MappingsError>,
)
    requires
        task.has_come_to(all, asked, table),
        serves(table, asked, reply, after),
        task.awaits() is Some,
        reply.answers(task.awaits()->0),
        task.step(reply, next, progress),
    ensures
        after == table,
        next.blacklists_sorted == task.blacklists_sorted,
        match progress {
            Progress::Perform(action) => next.has_come_to(all, action, table),
            Progress::Done(kept) => kept@ == new_channels(task.blacklists_sorted@, table, all),
            Progress::Failed(_) => false,
        },
{
    if let FilterChannelsStage::LookingUp { channel, pending, kept } = task.stage {
        let done = all.len() - pending@.len() - 1;
        assert(all.take(done + 1).drop_last() =~= all.take(done));
        assert(all.take(done + 1).last() == channel);
        reveal(Seq::filter);
        let ended = task.at(FilterChannelsStage::Ended);
        assert(ended.kept_with(kept@, channel, reply->Mapping_0 is Some) =~= new_channels(
            task.blacklists_sorted@,
            table,
            all.take(done + 1),
        ));
        filtering_channels_continues(ended, all, done + 1, table, next, progress);
    }
}

/// The channels that are kept of the first `n`, from what the lookups found: those that are not
/// blacklisted and were not found. A lookup that failed found nothing.
pub open spec fn channels_not_found(
    blacklists: Seq<Blacklist>,
    channels: Seq<Channel>,
    replies: Seq<Reply>,
    n: int,
) -> Seq<Channel>
    decreases n,
{
    if n <= 0 {
        Seq::empty()
    } else {
        let before = channels_not_found(blacklists, channels, replies, n - 1);
        let channel = channels[n - 1];
        if replies[n] matches Reply::Mapping(Some(_)) || blacklists.contains(
            Blacklist::Channel(channel.id),
        ) {
            before
        } else {
            before.push(channel)
        }
    }
}

/// Every channel is looked up, each once and in order, and those are kept that are neither
/// blacklisted nor found, also where the table cannot always be read.
pub proof fn channels_are_looked_up(
    tasks: Seq<FilterBarChannels>,
    replies: Seq<Reply>,
    progress: Seq<Progress<Vec<Channel>, MappingsError>>,
    channels: Vec<Channel>,
    k: int,
)
    requires
        is_run(tasks, replies, progress),
        tasks[0].stage == (FilterChannelsStage::Begin { pending: channels }),
        replies.len() > 0,
        progress.last() is Done,
        0 <= k <= channels@.len(),
    ensures
        replies.len() == channels@.len() + 1,
        k < channels@.len() ==> progress[k].performs(
            Action::FindMapping { orig_id: channels@[k].id },
        ),
        progress.last()->Done_0@ == channels_not_found(
            tasks[0].blacklists_sorted@,
            channels@,
            replies,
            channels@.len() as int,
        ),
{
    channels_are_looked_up_to(tasks, replies, progress, channels, replies.len() - 1);
    if k < channels@.len() {
        channels_are_looked_up_to(tasks, replies, progress, channels, k);
    }
}

proof fn channels_are_looked_up_to(
    tasks: Seq<FilterBarChannels>,
    replies: Seq<Reply>,
    progress: Seq<Progress<Vec<Channel>, MappingsError>>,
    channels: Vec<Channel>,
    k: int,
)
    requires
        is_run(tasks, replies, progress),
        tasks[0].stage == (FilterChannelsStage::Begin { pending: channels }),
        replies.len() > 0,
        progress.last() is Done,
        0 <= k < replies.len(),
    ensures
        k <= channels@.len(),
        tasks[k + 1].blacklists_sorted == tasks[0].blacklists_sorted,
        ({
            let kept_so_far = channels_not_found(
                tasks[0].blacklists_sorted@,
                channels@,
                replies,
                k,
            );
            match tasks[k + 1].stage {
                FilterChannelsStage::LookingUp { channel, pending, kept } => {
                    &&& k < channels@.len()
                    &&& channel == channels@[k]
                    &&& pending@ == channels@.skip(k + 1)
                    &&& kept@ == kept_so_far
                    &&& progress[k].performs(Action::FindMapping { orig_id: channels@[k].id })
                },
                _ => {
                    &&& k == channels@.len()
                    &&& k == replies.len() - 1
                    &&& progress[k] is Done
                    &&& progress[k]->Done_0@ == kept_so_far
                },
            }
        }),
    decreases k,
{
    let reply = replies[k];
    if k > 0 {
        channels_are_looked_up_to(tasks, replies, progress, channels, k - 1);
        if k < channels@.len() {
            assert(channels@.skip(k)[0] == channels@[k]);
        }
    }
    if k < channels@.len() {
        assert(channels@.skip(k).drop_first() =~= channels@.skip(k + 1));
    }
    assert(channels@.skip(0) =~= channels@);
    if !(progress[k] is Perform) {
        runs_end(tasks, replies, progress, k);
    }
}

/// Where nothing fails, filtering some channels keeps those that are neither blacklisted nor
/// registered, in their order, and leaves the table as it is.
pub proof fn new_channels_are_kept(
    tasks: Seq<FilterBarChannels>,
    replies: Seq<Reply>,
    progress: Seq<Progress<Vec<Channel>, MappingsError>>,
    tables: Seq<Table>,
    channels: Vec<Channel>,
)
    requires
        is_run(tasks, replies, progress),
        is_served(replies, progress, tables),
        tasks[0].stage == (FilterChannelsStage::Begin { pending: channels }),
        replies.len() > 0,
        !(progress.last() is Perform),
    ensures
        progress.last() matches Progress::Done(kept) && kept@ == new_channels(
            tasks[0].blacklists_sorted@,
            tables[0],
            channels@,
        ),
        tables.last() == tables[0],
{
    channels_are_kept_up_to(tasks, replies, progress, tables, channels, replies.len() - 1);
}

proof fn channels_are_kept_up_to(
    tasks: Seq<FilterBarChannels>,
    replies: Seq<Reply>,
    progress: Seq<Progress<Vec<Channel>, MappingsError>>,
    tables: Seq<Table>,
    channels: Vec<Channel>,
    k: int,
)
    requires
        is_run(tasks, replies, progress),
        is_served(replies, progress, tables),
        tasks[0].stage == (FilterChannelsStage::Begin { pending: channels }),
        0 <= k < replies.len(),
    ensures
        tables[k] == tables[0],
        tasks[k + 1].blacklists_sorted == tasks[0].blacklists_sorted,
        match progress[k] {
            Progress::Perform(action) => tasks[k + 1].has_come_to(channels@, action, tables[0]),
            Progress::Done(kept) => kept@ == new_channels(
                tasks[0].blacklists_sorted@,
                tables[0],
                channels@,
            ),
            Progress::Failed(_) => false,
        },
    decreases k,
{
    let reply = replies[k];
    if k > 0 {
        channels_are_kept_up_to(tasks, replies, progress, tables, channels, k - 1);
        if !(progress[k - 1] is Perform) {
            runs_end(tasks, replies, progress, k - 1);
        }
        filtering_channels_goes_on(
            tasks[k],
            channels@,
            progress[k - 1]->Perform_0,
            tables[0],
            reply,
            tables[k],
            tasks[k + 1],
            progress[k],
        );
    } else {
        filtering_channels_begins(tasks[0], channels, tables[0], tasks[1], progress[0]);
    }
}

// ---------------------------------------------------------------------------
// What is kept in the end: roles
// ---------------------------------------------------------------------------

/// Whether a role is neither blacklisted nor registered.
pub open spec fn is_new_role(blacklists: Seq<Blacklist>, table: Table, role: Role) -> bool {
    !blacklists.contains(Blacklist::Role(role.id)) && !is_registered(table, role.id)
}

/// Those of some roles that are neither blacklisted nor registered, in their order.
pub open spec fn new_roles(
    blacklists: Seq<Blacklist>,
    table: Table,
    roles: Seq<Role>,
) -> Seq<Role> {
    roles.filter(|role: Role| is_new_role(blacklists, table, role))
}

impl FilterBarRoles {
    /// Whether this is a filtering of some roles that waits for the answer to an operation:
    /// all before the one that is looked up were dealt with.
    pub open spec fn has_come_to(self, all: Seq<Role>, asked: Action, table: Table) -> bool {
        &&& self.stage matches FilterRolesStage::LookingUp { role, pending, kept }
        &&& asked == (Action::FindMapping { orig_id: role.id })
        &&& pending@.len() < all.len()
        &&& ({
            let done = all.len() - pending@.len() - 1;
            &&& role == all[done]
            &&& pending@ == all.skip(done + 1)
            &&& kept@ == new_roles(self.blacklists_sorted@, table, all.take(done))
        })
    }
}

/// What a filtering has come to once the first `done` roles were dealt with.
proof fn filtering_roles_continues(
    task: FilterBarRoles,
    all: Seq<Role>,
    done: int,
    table: Table,
    next: FilterBarRoles,
    progress: Progress<Vec<Role>, MappingsError>,
)
    requires
        0 <= done <= all.len(),
        task.continues(
            all.skip(done),
            new_roles(task.blacklists_sorted@, table, all.take(done)),
            next,
            progress,
        ),
    ensures
        next.blacklists_sorted == task.blacklists_sorted,
        match progress {
            Progress::Perform(action) => next.has_come_to(all, action, table),
            Progress::Done(kept) => kept@ == new_roles(task.blacklists_sorted@, table, all),
            Progress::Failed(_) => false,
        },
{
    if done < all.len() {
        assert(all.skip(done).drop_first() =~= all.skip(done + 1));
    } else {
        assert(all.take(done) =~= all);
    }
}

/// The first step of a filtering.
pub(crate) proof fn filtering_roles_begins(
    task: FilterBarRoles,
    all: Vec<Role>,
    table: Table,
    next: FilterBarRoles,
    progress: Progress<Vec<Role>, MappingsError>,
)
    requires
        task.stage == (FilterRolesStage::Begin { pending: all }),
        task.step(Reply::Begin, next, progress),
    ensures
        next.blacklists_sorted == task.blacklists_sorted,
        match progress {
            Progress::Perform(action) => next.has_come_to(all@, action, table),
            Progress::Done(kept) => kept@ == new_roles(task.blacklists_sorted@, table, all@),
            Progress::Failed(_) => false,
        },
{
    reveal(Seq::filter);
    let ended = task.at(FilterRolesStage::Ended);
    assert(all@.skip(0) =~= all@);
    assert(new_roles(ended.blacklists_sorted@, table, all@.take(0)) =~= Seq::empty());
    filtering_roles_continues(ended, all@, 0, table, next, progress);
}

/// One step of a filtering, from what its last lookup found.
pub(crate) proof fn filtering_roles_goes_on(
    task: FilterBarRoles,
    all: Seq<Role>,
    asked: Action,
    table: Table,
    reply: Reply,
    after: Table,
    next: FilterBarRoles,
    progress: Progress<Vec<Role>, MappingsError>,
)
    requires
        task.has_come_to(all, asked, table),
        serves(table, asked, reply, after),
        task.awaits() is Some,
        reply.answers(task.awaits()->0),
        task.step(reply, next, progress),
    ensures
        after == table,
        next.blacklists_sorted == task.blacklists_sorted,
        match progress {
            Progress::Perform(action) => next.has_come_to(all, action, table),
            Progress::Done(kept) => kept@ == new_roles(task.blacklists_sorted@, table, all),
            Progress::Failed(_) => false,
        },
{
    if let FilterRolesStage::LookingUp { role, pending, kept } = task.stage {
        let done = all.len() - pending@.len() - 1;
        assert(all.take(done + 1).drop_last() =~= all.take(done));
        assert(all.take(done + 1).last() == role);
        reveal(Seq::filter);
        let ended = task.at(FilterRolesStage::Ended);
        assert(ended.kept_with(kept@, role, reply->Mapping_0 is Some) =~= new_roles(
            task.blacklists_sorted@,
            table,
            all.take(done + 1),
        ));
        filtering_roles_continues(ended, all, done + 1, table, next, progress);
    }
}

/// The roles that are kept of the first `n`, from what the lookups found: those that are not
/// blacklisted and were not found. A lookup that failed found nothing.
pub open spec fn roles_not_found(
    blacklists: Seq<Blacklist>,
    roles: Seq<Role>,
    replies: Seq<Reply>,
    n: int,
) -> Seq<Role>
    decreases n,
{
    if n <= 0 {
        Seq::empty()
    } else {
        let before = roles_not_found(blacklists, roles, replies, n - 1);
        let role = roles[n - 1];
        if replies[n] matches Reply::Mapping(Some(_)) || blacklists.contains(
            Blacklist::Role(role.id),
        ) {
            before
        } else {
            before.push(role)
        }
    }
}

/// Every role is looked up, each once and in order, and those are kept that are neither
/// blacklisted nor found, also where the table cannot always be read.
pub proof fn roles_are_looked_up(
    tasks: Seq<FilterBarRoles>,
    replies: Seq<Reply>,
    progress: Seq<Progress<Vec<Role>, MappingsError>>,
    roles: Vec<Role>,
    k: int,
)
    requires
        is_run(tasks, replies, progress),
        tasks[0].stage == (FilterRolesStage::Begin { pending: roles }),
        replies.len() > 0,
        progress.last() is Done,
        0 <= k <= roles@.len(),
    ensures
        replies.len() == roles@.len() + 1,
        k < roles@.len() ==> progress[k].performs(
            Action::FindMapping { orig_id: roles@[k].id },
        ),
        progress.last()->Done_0@ == roles_not_found(
            tasks[0].blacklists_sorted@,
            roles@,
            replies,
            roles@.len() as int,
        ),
{
    roles_are_looked_up_to(tasks, replies, progress, roles, replies.len() - 1);
    if k < roles@.len() {
        roles_are_looked_up_to(tasks, replies, progress, roles, k);
    }
}

proof fn roles_are_looked_up_to(
    tasks: Seq<FilterBarRoles>,
    replies: Seq<Reply>,
    progress: Seq<Progress<Vec<Role>, MappingsError>>,
    roles: Vec<Role>,
    k: int,
)
    requires
        is_run(tasks, replies, progress),
        tasks[0].stage == (FilterRolesStage::Begin { pending: roles }),
        replies.len() > 0,
        progress.last() is Done,
        0 <= k < replies.len(),
    ensures
        k <= roles@.len(),
        tasks[k + 1].blacklists_sorted == tasks[0].blacklists_sorted,
        ({
            let kept_so_far = roles_not_found(
                tasks[0].blacklists_sorted@,
                roles@,
                replies,
                k,
            );
            match tasks[k + 1].stage {
                FilterRolesStage::LookingUp { role, pending, kept } => {
                    &&& k < roles@.len()
                    &&& role == roles@[k]
                    &&& pending@ == roles@.skip(k + 1)
                    &&& kept@ == kept_so_far
                    &&& progress[k].performs(Action::FindMapping { orig_id: roles@[k].id })
                },
                _ => {
                    &&& k == roles@.len()
                    &&& k == replies.len() - 1
                    &&& progress[k] is Done
                    &&& progress[k]->Done_0@ == kept_so_far
                },
            }
        }),
    decreases k,
{
    let reply = replies[k];
    if k > 0 {
        roles_are_looked_up_to(tasks, replies, progress, roles, k - 1);
        if k < roles@.len() {
            assert(roles@.skip(k)[0] == roles@[k]);
        }
    }
    if k < roles@.len() {
        assert(roles@.skip(k).drop_first() =~= roles@.skip(k + 1));
    }
    assert(roles@.skip(0) =~= roles@);
    if !(progress[k] is Perform) {
        runs_end(tasks, replies, progress, k);
    }
}

/// Where nothing fails, filtering some roles keeps those that are neither blacklisted nor
/// registered, in their order, and leaves the table as it is.
pub proof fn new_roles_are_kept(
    tasks: Seq<FilterBarRoles>,
    replies: Seq<Reply>,
    progress: Seq<Progress<Vec<Role>, MappingsError>>,
    tables: Seq<Table>,
    roles: Vec<Role>,
)
    requires
        is_run(tasks, replies, progress),
        is_served(replies, progress, tables),
        tasks[0].stage == (FilterRolesStage::Begin { pending: roles }),
        replies.len() > 0,
        !(progress.last() is Perform),
    ensures
        progress.last() matches Progress::Done(kept) && kept@ == new_roles(
            tasks[0].blacklists_sorted@,
            tables[0],
            roles@,
        ),
        tables.last() == tables[0],
{
    roles_are_kept_up_to(tasks, replies, progress, tables, roles, replies.len() - 1);
}

proof fn roles_are_kept_up_to(
    tasks: Seq<FilterBarRoles>,
    replies: Seq<Reply>,
    progress: Seq<Progress<Vec<Role>, MappingsError>>,
    tables: Seq<Table>,
    roles: Vec<Role>,
    k: int,
)
    requires
        is_run(tasks, replies, progress),
        is_served(replies, progress, tables),
        tasks[0].stage == (FilterRolesStage::Begin { pending: roles }),
        0 <= k < replies.len(),
    ensures
        tables[k] == tables[0],
        tasks[k + 1].blacklists_sorted == tasks[0].blacklists_sorted,
        match progress[k] {
            Progress::Perform(action) => tasks[k + 1].has_come_to(roles@, action, tables[0]),
            Progress::Done(kept) => kept@ == new_roles(
                tasks[0].blacklists_sorted@,
                tables[0],
                roles@,
            ),
            Progress::Failed(_) => false,
        },
    decreases k,
{
    let reply = replies[k];
    if k > 0 {
        roles_are_kept_up_to(tasks, replies, progress, tables, roles, k - 1);
        if !(progress[k - 1] is Perform) {
            runs_end(tasks, replies, progress, k - 1);
        }
        filtering_roles_goes_on(
            tasks[k],
            roles@,
            progress[k - 1]->Perform_0,
            tables[0],
            reply,
            tables[k],
            tasks[k + 1],
            progress[k],
        );
    } else {
        filtering_roles_begins(tasks[0], roles, tables[0], tasks[1], progress[0]);
    }
}

} // verus!
