//! Forgetting mappings that are no longer wanted.
use crate::actions::mapping::{get_registered_guilds, registered_guilds};
use crate::blacklist::Blacklist;
use crate::config::GuildSettings;
use crate::errors::MappingsError;
use crate::keys::{be_bytes, be_bytes_round_trip, be_value};
use crate::model::{IdMapping, MappingView};
use crate::operation::{is_run, runs_end, Action, Progress, Reply, ReplyKind, Task};
use crate::table::{
    has_unique_keys, has_unique_origins, is_between, is_into, is_served, leads_from, serves,
    without, Table,
};
use vstd::prelude::*;

verus! {

// ---------------------------------------------------------------------------
// Mappings that are listed
// ---------------------------------------------------------------------------

/// Which mappings are unregistered.
#[derive(Clone, Copy, Debug, PartialEq, Eq, Structural)]
pub enum Listing {
    /// Those from one guild into another.
    Between { src_guild_id: u64, dest_guild_id: u64 },
    /// Those into a guild, whatever guild they lead from.
    Into { dest_guild_id: u64 },
}

impl Listing {
    /// The operation that lists the mappings.
    pub open spec fn spec_action(self) -> Action {
        match self {
            Listing::Between { src_guild_id, dest_guild_id } => Action::GetMappings {
                orig_guild_id: src_guild_id,
                ref_guild_id: dest_guild_id,
            },
            Listing::Into { dest_guild_id } => Action::GetMappingsInto {
                ref_guild_id: dest_guild_id,
            },
        }
    }

    /// The operation that lists the mappings.
    pub fn action(&self) -> (action: Action)
        ensures
            action == self.spec_action(),
    {
        match self {
            Listing::Between { src_guild_id, dest_guild_id } => Action::GetMappings {
                orig_guild_id: *src_guild_id,
                ref_guild_id: *dest_guild_id,
            },
            Listing::Into { dest_guild_id } => Action::GetMappingsInto {
                ref_guild_id: *dest_guild_id,
            },
        }
    }
}

/// How far the forgetting has come.
pub enum ForgetStage {
    Begin,
    Listing,
    Unregistering { pending: Vec<IdMapping> },
    Ended,
}

/// Lists some mappings, and unregisters all that are listed.
pub struct ForgetMappings {
    pub listing: Listing,
    pub stage: ForgetStage,
}

/// Begins to unregister all mappings belonging to a destination guild, whatever guild they
/// lead from.
pub fn unregister_guild_pair(_src_guild_id: u64, dest_guild_id: u64) -> (task: ForgetMappings)
    ensures
        task.wf(),
        task == (ForgetMappings {
            listing: Listing::Into { dest_guild_id },
            stage: ForgetStage::Begin,
        }),
{
    ForgetMappings { listing: Listing::Into { dest_guild_id }, stage: ForgetStage::Begin }
}

/// Begins to unregister the mappings from one guild into another, and no others.
pub fn forget_pair(src_guild_id: u64, dest_guild_id: u64) -> (task: ForgetMappings)
    ensures
        task.wf(),
        task == (ForgetMappings {
            listing: Listing::Between { src_guild_id, dest_guild_id },
            stage: ForgetStage::Begin,
        }),
{
    let listing = Listing::Between { src_guild_id, dest_guild_id };
    ForgetMappings { listing, stage: ForgetStage::Begin }
}

impl ForgetMappings {
    /// The same forgetting, at another stage.
    pub open spec fn at(self, stage: ForgetStage) -> ForgetMappings {
        ForgetMappings { stage, ..self }
    }

    /// What follows while these mappings are left.
    pub open spec fn continues(
        self,
        pending: Seq<IdMapping>,
        next: Self,
        progress: Progress<(), MappingsError>,
    ) -> bool {
        if pending.len() == 0 {
            next == self.at(ForgetStage::Ended) && progress.yields(())
        } else {
            &&& next.listing == self.listing
            &&& next.stage matches ForgetStage::Unregistering { pending: left }
            &&& left@ == pending.drop_first()
            &&& progress.unregisters(pending[0]@)
        }
    }

    fn proceed(self, pending: Vec<IdMapping>) -> (res: (Self, Progress<(), MappingsError>))
        ensures
            self.continues(pending@, res.0, res.1),
            res.0.wf(),
            res.1.leaves(res.0.awaits()),
    {
        let mut pending = pending;
        if pending.len() == 0 {
            (ForgetMappings { stage: ForgetStage::Ended, ..self }, Progress::Done(()))
        } else {
            let ghost before = pending@;
            let mapping = pending.remove(0);
            assert(pending@ =~= before.drop_first());
            (
                ForgetMappings { stage: ForgetStage::Unregistering { pending }, ..self },
                Progress::Perform(Action::UnregisterMapping(mapping)),
            )
        }
    }
}

impl Task for ForgetMappings {
    type Output = ();

    type Error = MappingsError;

    open spec fn wf(self) -> bool {
        true
    }

    open spec fn awaits(self) -> Option<ReplyKind> {
        match self.stage {
            ForgetStage::Begin => Some(ReplyKind::Begin),
            ForgetStage::Listing => Some(ReplyKind::Mappings),
            ForgetStage::Unregistering { .. } => Some(ReplyKind::Done),
            ForgetStage::Ended => None,
        }
    }

    open spec fn step(
        self,
        reply: Reply,
        next: Self,
        progress: Progress<(), MappingsError>,
    ) -> bool {
        let ended = self.at(ForgetStage::Ended);
        match (self.stage, reply) {
            (_, Reply::Failed(failure)) => next == ended && progress.fails(
                MappingsError::of(failure),
            ),
            (ForgetStage::Begin, Reply::Begin) => {
                &&& next == self.at(ForgetStage::Listing)
                &&& progress.performs(self.listing.spec_action())
            },
            (ForgetStage::Listing, Reply::Mappings(mappings)) => ended.continues(
                mappings@,
                next,
                progress,
            ),
            (ForgetStage::Unregistering { pending }, Reply::Done) => ended.continues(
                pending@,
                next,
                progress,
            ),
            _ => false,
        }
    }

    fn resume(self, reply: Reply) -> (res: (Self, Progress<(), MappingsError>)) {
        let ForgetMappings { listing, stage } = self;
        let ended = ForgetMappings { listing, stage: ForgetStage::Ended };
        match (stage, reply) {
            (_, Reply::Failed(failure)) => (
                ended,
                Progress::Failed(MappingsError::from_failure(failure)),
            ),
            (ForgetStage::Begin, Reply::Begin) => (
                ForgetMappings { stage: ForgetStage::Listing, ..ended },
                Progress::Perform(listing.action()),
            ),
            (ForgetStage::Listing, Reply::Mappings(mappings)) => ended.proceed(mappings),
            (ForgetStage::Unregistering { pending }, Reply::Done) => ended.proceed(pending),
            _ => vstd::pervasive::unreached(),
        }
    }
}

// ---------------------------------------------------------------------------
// Guilds that are not configured
// ---------------------------------------------------------------------------

/// The pairs of guilds that are configured.
pub open spec fn configured_pairs(guilds: Seq<GuildSettings>) -> Seq<(u64, u64)> {
    guilds.map_values(|settings: GuildSettings| (settings.src_guild_id, settings.dest_guild_id))
}

/// What is left of some pairs of guilds once those at the front that are configured are
/// gone.
pub open spec fn unconfigured(pending: Seq<(u64, u64)>, configured: Seq<(u64, u64)>) -> Seq<
    (u64, u64),
>
    decreases pending.len(),
{
    if pending.len() > 0 && configured.contains(pending[0]) {
        unconfigured(pending.drop_first(), configured)
    } else {
        pending
    }
}

/// Nothing that is configured is left at the front.
pub proof fn configured_pairs_are_kept(pending: Seq<(u64, u64)>, configured: Seq<(u64, u64)>)
    ensures
        ({
            let left = unconfigured(pending, configured);
            left.len() > 0 ==> !configured.contains(left[0]) && pending.contains(left[0])
        }),
    decreases pending.len(),
{
    let left = unconfigured(pending, configured);
    if pending.len() > 0 && configured.contains(pending[0]) {
        configured_pairs_are_kept(pending.drop_first(), configured);
        if left.len() > 0 {
            let rest = pending.drop_first();
            let i = choose|i: int| 0 <= i < rest.len() && rest[i] == left[0];
            assert(pending[i + 1] == left[0]);
        }
    } else if left.len() > 0 {
        assert(pending[0] == left[0]);
    }
}

/// Whether a pair of guilds is among some pairs.
fn holds_pair(pairs: &Vec<(u64, u64)>, pair: (u64, u64)) -> (found: bool)
    ensures
        found == pairs@.contains(pair),
{
    for i in 0..pairs.len()
        invariant
            forall|j: int| 0 <= j < i ==> (#[trigger] pairs@[j]) != pair,
    {
        if pairs[i].0 == pair.0 && pairs[i].1 == pair.1 {
            assert(pairs@[i as int] == pair);
            return true;
        }
    }
    false
}

/// How far the cleaning up has come.
pub enum CleanupStage {
    Begin,
    Listing,
    Unregistering { pending: Vec<(u64, u64)>, pair: ForgetMappings },
    Ended,
}

/// Unregisters all mappings between guilds that are not configured.
pub struct CleanupUnusedMappings {
    pub configured: Vec<(u64, u64)>,
    pub stage: CleanupStage,
}

/// Begins to unregister all mappings between guilds that are not configured.
pub fn cleanup_unused_mappings(guilds: &Vec<GuildSettings>) -> (task: CleanupUnusedMappings)
    ensures
        task.wf(),
        task.configured@ == configured_pairs(guilds@),
        task.stage is Begin,
{
    let mut configured: Vec<(u64, u64)> = Vec::new();
    for i in 0..guilds.len()
        invariant
            configured@ == configured_pairs(guilds@).take(i as int),
    {
        configured.push((guilds[i].src_guild_id, guilds[i].dest_guild_id));
        assert(configured_pairs(guilds@).take(i + 1) == configured_pairs(guilds@).take(
            i as int,
        ).push(configured_pairs(guilds@)[i as int]));
    }
    assert(configured_pairs(guilds@).take(guilds@.len() as int) == configured_pairs(guilds@));
    CleanupUnusedMappings { configured, stage: CleanupStage::Begin }
}

impl CleanupUnusedMappings {
    /// The same cleaning up, at another stage.
    pub open spec fn at(self, stage: CleanupStage) -> CleanupUnusedMappings {
        CleanupUnusedMappings { stage, ..self }
    }

    /// What follows while these pairs are left: the next one that is not configured is
    /// forgotten.
    pub open spec fn continues(
        self,
        pending: Seq<(u64, u64)>,
        next: Self,
        progress: Progress<(), MappingsError>,
    ) -> bool {
        let left = unconfigured(pending, self.configured@);
        if left.len() == 0 {
            next == self.at(CleanupStage::Ended) && progress.yields(())
        } else {
            &&& next.configured == self.configured
            &&& next.stage matches CleanupStage::Unregistering { pending: next_pending, pair }
            &&& next_pending@ == left.drop_first()
            &&& pair == (ForgetMappings {
                listing: Listing::Between { src_guild_id: left[0].0, dest_guild_id: left[0].1 },
                stage: ForgetStage::Listing,
            })
            &&& progress.performs(
                Action::GetMappings { orig_guild_id: left[0].0, ref_guild_id: left[0].1 },
            )
        }
    }

    /// What follows from a step of the forgetting of one pair.
    pub open spec fn after_pair(
        self,
        pending: Vec<(u64, u64)>,
        pair: ForgetMappings,
        forgotten: Progress<(), MappingsError>,
        next: Self,
        progress: Progress<(), MappingsError>,
    ) -> bool {
        match forgotten {
            Progress::Perform(action) => {
                &&& next == self.at(CleanupStage::Unregistering { pending, pair })
                &&& progress.performs(action)
            },
            Progress::Failed(error) => next == self.at(CleanupStage::Ended) && progress.fails(
                error,
            ),
            Progress::Done(()) => self.continues(pending@, next, progress),
        }
    }

    fn proceed(self, pairs: Vec<(u64, u64)>) -> (res: (Self, Progress<(), MappingsError>))
        ensures
            self.continues(pairs@, res.0, res.1),
            res.0.wf(),
            res.1.leaves(res.0.awaits()),
    {
        let mut pending = pairs;
        while pending.len() > 0
            invariant
                unconfigured(pending@, self.configured@) == unconfigured(
                    pairs@,
                    self.configured@,
                ),
            decreases pending@.len(),
        {
            let ghost before = pending@;
            let (src, dest): (u64, u64) = pending.remove(0);
            assert(pending@ =~= before.drop_first());
            if !holds_pair(&self.configured, (src, dest)) {
                let (pair, progress) = forget_pair(src, dest).resume(Reply::Begin);
                let stage = CleanupStage::Unregistering { pending, pair };
                return (CleanupUnusedMappings { stage, ..self }, progress);
            }
        }
        (CleanupUnusedMappings { stage: CleanupStage::Ended, ..self }, Progress::Done(()))
    }
}

impl Task for CleanupUnusedMappings {
    type Output = ();

    type Error = MappingsError;

    open spec fn wf(self) -> bool {
        match self.stage {
            CleanupStage::Unregistering { pair, .. } => pair.wf() && !(pair.stage is Begin),
            _ => true,
        }
    }

    open spec fn awaits(self) -> Option<ReplyKind> {
        match self.stage {
            CleanupStage::Begin => Some(ReplyKind::Begin),
            CleanupStage::Listing => Some(ReplyKind::GuildRows),
            CleanupStage::Unregistering { pair, .. } => pair.awaits(),
            CleanupStage::Ended => None,
        }
    }

    open spec fn step(
        self,
        reply: Reply,
        next: Self,
        progress: Progress<(), MappingsError>,
    ) -> bool {
        let ended = self.at(CleanupStage::Ended);
        match (self.stage, reply) {
            (CleanupStage::Unregistering { pending, pair: task }, _) => exists|
                pair: ForgetMappings,
                forgotten,
            |
                #![trigger task.step(reply, pair, forgotten)]
                {
                    &&& task.step(reply, pair, forgotten)
                    &&& ended.after_pair(pending, pair, forgotten, next, progress)
                },
            (_, Reply::Failed(failure)) => next == ended && progress.fails(
                MappingsError::of(failure),
            ),
            (CleanupStage::Begin, Reply::Begin) => next == self.at(CleanupStage::Listing)
                && progress.performs(Action::GetRegisteredGuilds),
            (CleanupStage::Listing, Reply::GuildRows(rows)) => ended.continues(
                registered_guilds(rows@),
                next,
                progress,
            ),
            _ => false,
        }
    }

    fn resume(self, reply: Reply) -> (res: (Self, Progress<(), MappingsError>)) {
        assert(self.wf());
        let CleanupUnusedMappings { configured, stage } = self;
        let ended = CleanupUnusedMappings { configured, stage: CleanupStage::Ended };
        match (stage, reply) {
            (CleanupStage::Unregistering { pending, pair }, reply) => {
                let (pair, forgotten) = pair.resume(reply);
                match forgotten {
                    Progress::Perform(action) => {
                        let stage = CleanupStage::Unregistering { pending, pair };
                        (CleanupUnusedMappings { stage, ..ended }, Progress::Perform(action))
                    },
                    Progress::Failed(error) => (ended, Progress::Failed(error)),
                    Progress::Done(()) => ended.proceed(pending),
                }
            },
            (_, Reply::Failed(failure)) => (
                ended,
                Progress::Failed(MappingsError::from_failure(failure)),
            ),
            (CleanupStage::Begin, Reply::Begin) => (
                CleanupUnusedMappings { stage: CleanupStage::Listing, ..ended },
                Progress::Perform(Action::GetRegisteredGuilds),
            ),
            (CleanupStage::Listing, Reply::GuildRows(rows)) => ended.proceed(
                get_registered_guilds(&rows),
            ),
            _ => vstd::pervasive::unreached(),
        }
    }
}

// ---------------------------------------------------------------------------
// Blacklisted channels
// ---------------------------------------------------------------------------

/// What is left of a blacklist once the entries at the front that are no channels are gone.
pub open spec fn from_next_channel(pending: Seq<Blacklist>) -> Seq<Blacklist>
    decreases pending.len(),
{
    if pending.len() > 0 && !(pending[0] is Channel) {
        from_next_channel(pending.drop_first())
    } else {
        pending
    }
}

/// How far the forgetting has come.
pub enum BlacklistStage {
    Begin { pending: Vec<Blacklist> },
    Finding { pending: Vec<Blacklist> },
    Unregistering { pending: Vec<Blacklist> },
    Ended,
}

/// Unregisters the mappings of all channels that are blacklisted.
pub struct UnregisterBlacklistedChannels {
    pub stage: BlacklistStage,
}

/// Begins to unregister the mappings of all channels that are blacklisted.
pub fn unregister_blacklisted_channels(blacklists_sorted: Vec<Blacklist>) -> (task:
    UnregisterBlacklistedChannels)
    ensures
        task.wf(),
        task.stage == (BlacklistStage::Begin { pending: blacklists_sorted }),
{
    UnregisterBlacklistedChannels { stage: BlacklistStage::Begin { pending: blacklists_sorted } }
}

impl UnregisterBlacklistedChannels {
    /// What follows while these entries are left: the next channel among them is looked up.
    pub open spec fn continues(
        pending: Seq<Blacklist>,
        next: Self,
        progress: Progress<(), MappingsError>,
    ) -> bool {
        let left = from_next_channel(pending);
        if left.len() == 0 {
            next.stage is Ended && progress.yields(())
        } else {
            &&& next.stage matches BlacklistStage::Finding { pending: next_pending }
            &&& next_pending@ == left.drop_first()
            &&& progress.performs(Action::FindMapping { orig_id: left[0].spec_id() })
        }
    }

    fn proceed(entries: Vec<Blacklist>) -> (res: (Self, Progress<(), MappingsError>))
        ensures
            Self::continues(entries@, res.0, res.1),
            res.0.wf(),
            res.1.leaves(res.0.awaits()),
    {
        let mut pending = entries;
        while pending.len() > 0
            invariant
                from_next_channel(pending@) == from_next_channel(entries@),
            decreases pending@.len(),
        {
            let ghost before = pending@;
            let entry = pending.remove(0);
            assert(pending@ =~= before.drop_first());
            if let Blacklist::Channel(id) = entry {
                return (
                    UnregisterBlacklistedChannels { stage: BlacklistStage::Finding { pending } },
                    Progress::Perform(Action::FindMapping { orig_id: id }),
                );
            }
        }
        (UnregisterBlacklistedChannels { stage: BlacklistStage::Ended }, Progress::Done(()))
    }
}

impl Task for UnregisterBlacklistedChannels {
    type Output = ();

    type Error = MappingsError;

    open spec fn wf(self) -> bool {
        true
    }

    open spec fn awaits(self) -> Option<ReplyKind> {
        match self.stage {
            BlacklistStage::Begin { .. } => Some(ReplyKind::Begin),
            BlacklistStage::Finding { .. } => Some(ReplyKind::Record),
            BlacklistStage::Unregistering { .. } => Some(ReplyKind::Done),
            BlacklistStage::Ended => None,
        }
    }

    open spec fn step(
        self,
        reply: Reply,
        next: Self,
        progress: Progress<(), MappingsError>,
    ) -> bool {
        match (self.stage, reply) {
            (_, Reply::Failed(failure)) => next.stage is Ended && progress.fails(
                MappingsError::of(failure),
            ),
            (BlacklistStage::Begin { pending }, Reply::Begin) => Self::continues(
                pending@,
                next,
                progress,
            ),
            (BlacklistStage::Finding { pending }, Reply::Mapping(Some(mapping))) => {
                &&& next.stage == (BlacklistStage::Unregistering { pending })
                &&& progress.unregisters(mapping@)
            },
            (BlacklistStage::Finding { pending }, Reply::Mapping(None)) => Self::continues(
                pending@,
                next,
                progress,
            ),
            (BlacklistStage::Unregistering { pending }, Reply::Done) => Self::continues(
                pending@,
                next,
                progress,
            ),
            _ => false,
        }
    }

    fn resume(self, reply: Reply) -> (res: (Self, Progress<(), MappingsError>)) {
        match (self.stage, reply) {
            (_, Reply::Failed(failure)) => (
                UnregisterBlacklistedChannels { stage: BlacklistStage::Ended },
                Progress::Failed(MappingsError::from_failure(failure)),
            ),
            (BlacklistStage::Begin { pending }, Reply::Begin) => Self::proceed(pending),
            (BlacklistStage::Finding { pending }, Reply::Mapping(found)) => {
                match found {
                    Some(mapping) => (
                        UnregisterBlacklistedChannels {
                            stage: BlacklistStage::Unregistering { pending },
                        },
                        Progress::Perform(Action::UnregisterMapping(mapping)),
                    ),
                    None => Self::proceed(pending),
                }
            },
            (BlacklistStage::Unregistering { pending }, Reply::Done) => Self::proceed(pending),
            _ => vstd::pervasive::unreached(),
        }
    }
}

/// Mappings are listed, in order to be forgotten, only between guilds that are not
/// configured.
pub proof fn configured_guilds_are_not_forgotten(
    task: CleanupUnusedMappings,
    reply: Reply,
    next: CleanupUnusedMappings,
    progress: Progress<(), MappingsError>,
    orig_guild_id: u64,
    ref_guild_id: u64,
)
    requires
        task.wf(),
        task.step(reply, next, progress),
        progress.performs(Action::GetMappings { orig_guild_id, ref_guild_id }),
    ensures
        !task.configured@.contains((orig_guild_id, ref_guild_id)),
{
    match (task.stage, reply) {
        (CleanupStage::Listing, Reply::GuildRows(rows)) => {
            configured_pairs_are_kept(registered_guilds(rows@), task.configured@);
        },
        (CleanupStage::Unregistering { pending, pair }, _) => {
            configured_pairs_are_kept(pending@, task.configured@);
        },
        _ => {},
    }
}

/// Where nothing fails, every mapping that was listed is unregistered, each once and in
/// order, and nothing else is.
pub proof fn all_listed_mappings_are_unregistered(
    tasks: Seq<ForgetMappings>,
    replies: Seq<Reply>,
    progress: Seq<Progress<(), MappingsError>>,
    mappings: Vec<IdMapping>,
    k: int,
)
    requires
        is_run(tasks, replies, progress),
        tasks[0].stage is Begin,
        replies.len() >= 2,
        replies[1] == Reply::Mappings(mappings),
        progress.last() is Done,
        0 <= k <= mappings@.len(),
    ensures
        replies.len() == mappings@.len() + 2,
        k < mappings@.len() ==> progress[k + 1].unregisters(mappings@[k]@),
{
    unregistered_up_to(tasks, replies, progress, mappings, replies.len() - 2);
    if k < mappings@.len() {
        unregistered_up_to(tasks, replies, progress, mappings, k);
    }
}

/// After every answer but the last, the next mapping is unregistered.
proof fn unregistered_up_to(
    tasks: Seq<ForgetMappings>,
    replies: Seq<Reply>,
    progress: Seq<Progress<(), MappingsError>>,
    mappings: Vec<IdMapping>,
    k: int,
)
    requires
        is_run(tasks, replies, progress),
        tasks[0].stage is Begin,
        replies.len() >= 2,
        replies[1] == Reply::Mappings(mappings),
        progress.last() is Done,
        0 <= k <= replies.len() - 2,
    ensures
        k < replies.len() - 2 ==> {
            &&& k < mappings@.len()
            &&& progress[k + 1].unregisters(mappings@[k]@)
            &&& tasks[k + 2].stage matches ForgetStage::Unregistering { pending }
            &&& pending@ == mappings@.skip(k + 1)
        },
        k == replies.len() - 2 ==> k == mappings@.len(),
    decreases k,
{
    let first = replies[0];
    let reply = replies[k + 1];
    assert(mappings@.skip(0) =~= mappings@);
    if k > 0 {
        unregistered_up_to(tasks, replies, progress, mappings, k - 1);
        let before = replies[k];
        assert(k <= mappings@.len());
        if k < mappings@.len() {
            assert(mappings@.skip(k)[0] == mappings@[k]);
        }
    }
    if k < mappings@.len() {
        assert(mappings@.skip(k).drop_first() =~= mappings@.skip(k + 1));
    }
    if !(progress[k + 1] is Perform) {
        runs_end(tasks, replies, progress, k + 1);
    }
    if k + 2 < replies.len() {
        let after = replies[k + 2];
    }
}

// ---------------------------------------------------------------------------
// What becomes of the table
// ---------------------------------------------------------------------------

impl Listing {
    /// Whether a mapping is listed.
    pub open spec fn selects(self, mapping: MappingView) -> bool {
        match self {
            Listing::Between { src_guild_id, dest_guild_id } => is_between(
                mapping,
                src_guild_id,
                dest_guild_id,
            ),
            Listing::Into { dest_guild_id } => is_into(mapping, dest_guild_id),
        }
    }
}

impl ForgetMappings {
    /// Whether this is a forgetting that waits for the answer to an operation, with the table
    /// that it began with and the one that it has come to: what is listed and still there is
    /// yet to be unregistered, and nothing else is gone.
    pub open spec fn has_come_to(self, asked: Action, before: Table, table: Table) -> bool {
        match self.stage {
            ForgetStage::Listing => asked == self.listing.spec_action() && table == before,
            ForgetStage::Unregistering { pending } => {
                &&& asked matches Action::UnregisterMapping(mapping)
                &&& before.contains(mapping@) && self.listing.selects(mapping@)
                &&& forall|i: int|
                    0 <= i < pending@.len() ==> before.contains((#[trigger] pending@[i])@)
                        && self.listing.selects(pending@[i]@)
                &&& forall|row: MappingView| #[trigger]
                    table.contains(row) ==> before.contains(row)
                &&& forall|row: MappingView| #[trigger]
                    before.contains(row) && !self.listing.selects(row) ==> table.contains(row)
                &&& forall|row: MappingView| #[trigger]
                    table.contains(row) && self.listing.selects(row) ==> row == mapping@ || exists|
                        i: int,
                    | 0 <= i < pending@.len() && (#[trigger] pending@[i])@ == row
            },
            _ => false,
        }
    }
}

/// One step of a forgetting, from what its last operation made of the table.
pub(crate) proof fn forgetting_goes_on(
    task: ForgetMappings,
    asked: Action,
    before: Table,
    table: Table,
    reply: Reply,
    after: Table,
    next: ForgetMappings,
    progress: Progress<(), MappingsError>,
)
    requires
        has_unique_keys(before),
        task.has_come_to(asked, before, table),
        serves(table, asked, reply, after),
        task.awaits() is Some,
        reply.answers(task.awaits()->0),
        task.step(reply, next, progress),
    ensures
        next.listing == task.listing,
        match progress {
            Progress::Perform(action) => next.has_come_to(action, before, after),
            Progress::Done(()) => after == before.filter(
                |row: MappingView| !task.listing.selects(row),
            ),
            Progress::Failed(_) => false,
        },
{
    let left: Seq<IdMapping> = match (task.stage, reply) {
        (ForgetStage::Listing, Reply::Mappings(mappings)) => mappings@,
        (ForgetStage::Unregistering { pending }, _) => pending@,
        _ => Seq::empty(),
    };
    if left.len() > 0 {
        assert forall|row: MappingView| #[trigger]
            after.contains(row) && task.listing.selects(row) implies row == left[0]@ || exists|
            i: int,
        | 0 <= i < left.drop_first().len() && (#[trigger] left.drop_first()[i])@ == row by {
            let i = choose|i: int| 0 <= i < left.len() && (#[trigger] left[i])@ == row;
            if i > 0 {
                assert(left.drop_first()[i - 1] == left[i]);
            }
        }
    } else {
        assert(after =~= before.filter(|row: MappingView| !task.listing.selects(row)));
    }
}

/// Where nothing fails, forgetting the mappings that are listed takes them, and nothing else,
/// out of the table.
pub proof fn listed_mappings_are_forgotten(
    tasks: Seq<ForgetMappings>,
    replies: Seq<Reply>,
    progress: Seq<Progress<(), MappingsError>>,
    tables: Seq<Table>,
)
    requires
        is_run(tasks, replies, progress),
        is_served(replies, progress, tables),
        tasks[0].stage is Begin,
        replies.len() > 0,
        progress.last() is Done,
        has_unique_keys(tables[0]),
    ensures
        tables.last() == tables[0].filter(|row: MappingView| !tasks[0].listing.selects(row)),
{
    forgotten_up_to(tasks, replies, progress, tables, replies.len() - 1);
}

proof fn forgotten_up_to(
    tasks: Seq<ForgetMappings>,
    replies: Seq<Reply>,
    progress: Seq<Progress<(), MappingsError>>,
    tables: Seq<Table>,
    k: int,
)
    requires
        is_run(tasks, replies, progress),
        is_served(replies, progress, tables),
        tasks[0].stage is Begin,
        0 <= k < replies.len(),
        has_unique_keys(tables[0]),
    ensures
        tasks[k + 1].listing == tasks[0].listing,
        match progress[k] {
            Progress::Perform(action) => tasks[k + 1].has_come_to(action, tables[0], tables[k]),
            Progress::Done(()) => tables[k] == tables[0].filter(
                |row: MappingView| !tasks[0].listing.selects(row),
            ),
            Progress::Failed(_) => false,
        },
    decreases k,
{
    let reply = replies[k];
    if k > 0 {
        forgotten_up_to(tasks, replies, progress, tables, k - 1);
        if !(progress[k - 1] is Perform) {
            runs_end(tasks, replies, progress, k - 1);
        }
        forgetting_goes_on(
            tasks[k],
            progress[k - 1]->Perform_0,
            tables[0],
            tables[k - 1],
            reply,
            tables[k],
            tasks[k + 1],
            progress[k],
        );
    }
}

/// Once a destination guild was unregistered no mapping into it is left, whatever guild it
/// led from, and all other mappings are.
pub proof fn destination_is_forgotten(
    tasks: Seq<ForgetMappings>,
    replies: Seq<Reply>,
    progress: Seq<Progress<(), MappingsError>>,
    tables: Seq<Table>,
    dest_guild_id: u64,
)
    requires
        is_run(tasks, replies, progress),
        is_served(replies, progress, tables),
        tasks[0] == (ForgetMappings {
            listing: Listing::Into { dest_guild_id },
            stage: ForgetStage::Begin,
        }),
        replies.len() > 0,
        progress.last() is Done,
        has_unique_keys(tables[0]),
    ensures
        forall|row: MappingView| #[trigger]
            tables.last().contains(row) <==> tables[0].contains(row) && row.ref_guild_id
                != be_bytes(dest_guild_id),
{
    listed_mappings_are_forgotten(tasks, replies, progress, tables);
}

/// Whether a mapping is between guilds that are not configured.
pub open spec fn is_unused(row: MappingView, configured: Seq<(u64, u64)>) -> bool {
    exists|src_guild_id: u64, dest_guild_id: u64|
        #![trigger is_between(row, src_guild_id, dest_guild_id)]
        is_between(row, src_guild_id, dest_guild_id) && !configured.contains(
            (src_guild_id, dest_guild_id),
        )
}

/// Whether all that is gone from a table is unused, and what is unused and still there is
/// between guilds that are left.
pub open spec fn is_cleaned(
    before: Table,
    table: Table,
    configured: Seq<(u64, u64)>,
    left: Seq<(u64, u64)>,
) -> bool {
    &&& forall|row: MappingView| #[trigger] table.contains(row) ==> before.contains(row)
    &&& forall|row: MappingView| #[trigger]
        before.contains(row) && !is_unused(row, configured) ==> table.contains(row)
    &&& forall|row: MappingView, src_guild_id: u64, dest_guild_id: u64|
        #![trigger table.contains(row), is_between(row, src_guild_id, dest_guild_id)]
        table.contains(row) && is_between(row, src_guild_id, dest_guild_id) && !configured.contains(
            (src_guild_id, dest_guild_id),
        ) ==> left.contains((src_guild_id, dest_guild_id))
}

impl CleanupUnusedMappings {
    /// Whether this is a cleaning up that waits for the answer to an operation, with the table
    /// that it began with and the one that it has come to.
    pub open spec fn has_come_to(self, asked: Action, before: Table, table: Table) -> bool {
        match self.stage {
            CleanupStage::Listing => asked is GetRegisteredGuilds && table == before,
            CleanupStage::Unregistering { pending, pair } => {
                &&& pair.listing matches Listing::Between { src_guild_id, dest_guild_id }
                &&& !self.configured@.contains((src_guild_id, dest_guild_id))
                &&& exists|base: Table|
                    {
                        &&& #[trigger] pair.has_come_to(asked, base, table)
                        &&& is_cleaned(
                            before,
                            base,
                            self.configured@,
                            seq![(src_guild_id, dest_guild_id)] + pending@,
                        )
                    }
            },
            _ => false,
        }
    }
}

/// Whether a row is between the given guilds can be read from it.
proof fn guilds_of_a_row(row: MappingView, src_guild_id: u64, dest_guild_id: u64)
    requires
        is_between(row, src_guild_id, dest_guild_id),
    ensures
        be_value(row.orig_guild_id) == src_guild_id,
        be_value(row.ref_guild_id) == dest_guild_id,
{
    be_bytes_round_trip(src_guild_id);
    be_bytes_round_trip(dest_guild_id);
}

/// Skipping the configured pairs at the front keeps all others.
proof fn unconfigured_keeps(
    pending: Seq<(u64, u64)>,
    configured: Seq<(u64, u64)>,
    pair: (u64, u64),
)
    requires
        pending.contains(pair),
        !configured.contains(pair),
    ensures
        unconfigured(pending, configured).contains(pair),
    decreases pending.len(),
{
    if configured.contains(pending[0]) {
        let i = choose|i: int| 0 <= i < pending.len() && pending[i] == pair;
        assert(pending.drop_first()[i - 1] == pair);
        unconfigured_keeps(pending.drop_first(), configured, pair);
    }
}

/// What a cleaning up has come to while some pairs are left.
proof fn cleaning_continues(
    task: CleanupUnusedMappings,
    left: Seq<(u64, u64)>,
    before: Table,
    table: Table,
    next: CleanupUnusedMappings,
    progress: Progress<(), MappingsError>,
)
    requires
        is_cleaned(before, table, task.configured@, left),
        task.continues(left, next, progress),
    ensures
        next.configured == task.configured,
        match progress {
            Progress::Perform(action) => next.has_come_to(action, before, table),
            Progress::Done(()) => table == before.filter(
                |row: MappingView| !is_unused(row, task.configured@),
            ),
            Progress::Failed(_) => false,
        },
{
    let configured = task.configured@;
    let rest = unconfigured(left, configured);
    configured_pairs_are_kept(left, configured);
    assert forall|pair: (u64, u64)| left.contains(pair) && !configured.contains(pair) implies
        rest.contains(pair) by {
        unconfigured_keeps(left, configured, pair);
    }
    if rest.len() == 0 {
        assert(table =~= before.filter(|row: MappingView| !is_unused(row, configured)));
    } else {
        assert(seq![rest[0]] + rest.drop_first() =~= rest);
        assert(is_cleaned(before, table, configured, rest));
        if let CleanupStage::Unregistering { pending, pair } = next.stage {
            assert(pair.has_come_to(progress->Perform_0, table, table));
        }
    }
}

/// One step of a cleaning up, from what its last operation made of the table.
pub(crate) proof fn cleaning_goes_on(
    task: CleanupUnusedMappings,
    asked: Action,
    before: Table,
    table: Table,
    reply: Reply,
    after: Table,
    next: CleanupUnusedMappings,
    progress: Progress<(), MappingsError>,
)
    requires
        has_unique_keys(before),
        task.has_come_to(asked, before, table),
        serves(table, asked, reply, after),
        task.awaits() is Some,
        reply.answers(task.awaits()->0),
        task.step(reply, next, progress),
    ensures
        next.configured == task.configured,
        match progress {
            Progress::Perform(action) => next.has_come_to(action, before, after),
            Progress::Done(()) => after == before.filter(
                |row: MappingView| !is_unused(row, task.configured@),
            ),
            Progress::Failed(_) => false,
        },
{
    let configured = task.configured@;
    let ended = task.at(CleanupStage::Ended);
    match task.stage {
        CleanupStage::Listing => {
            let rows = reply->GuildRows_0@;
            let pairs = registered_guilds(rows);
            assert forall|row: MappingView, src_guild_id: u64, dest_guild_id: u64|
                #![trigger after.contains(row), is_between(row, src_guild_id, dest_guild_id)]
                after.contains(row) && is_between(
                    row,
                    src_guild_id,
                    dest_guild_id,
                ) implies pairs.contains((src_guild_id, dest_guild_id)) by {
                guilds_of_a_row(row, src_guild_id, dest_guild_id);
                let i = choose|i: int|
                    0 <= i < rows.len() && (#[trigger] rows[i]).0@ == row.orig_guild_id
                        && rows[i].1@ == row.ref_guild_id;
                assert(pairs[i] == (src_guild_id, dest_guild_id));
            }
            cleaning_continues(ended, pairs, before, after, next, progress);
        },
        CleanupStage::Unregistering { pending, pair } => {
            let (src, dest) = match pair.listing {
                Listing::Between { src_guild_id, dest_guild_id } => (src_guild_id, dest_guild_id),
                _ => (0u64, 0u64),
            };
            let base = choose|base: Table|
                {
                    &&& #[trigger] pair.has_come_to(asked, base, table)
                    &&& is_cleaned(before, base, configured, seq![(src, dest)] + pending@)
                };
            let (forgetting, forgotten) = choose|forgetting: ForgetMappings, forgotten|
                #![trigger pair.step(reply, forgetting, forgotten)]
                {
                    &&& pair.step(reply, forgetting, forgotten)
                    &&& ended.after_pair(pending, forgetting, forgotten, next, progress)
                };
            assert(has_unique_keys(base));
            forgetting_goes_on(pair, asked, base, table, reply, after, forgetting, forgotten);
            if forgotten is Done {
                let first = (src, dest);
                assert forall|row: MappingView, src_guild_id: u64, dest_guild_id: u64|
                    #![trigger after.contains(row), is_between(row, src_guild_id, dest_guild_id)]
                    after.contains(row) && is_between(row, src_guild_id, dest_guild_id)
                        && !configured.contains((src_guild_id, dest_guild_id)) implies
                    pending@.contains((src_guild_id, dest_guild_id)) by {
                    assert(base.contains(row));
                    let left = seq![first] + pending@;
                    assert(left.contains((src_guild_id, dest_guild_id)));
                    let i = choose|i: int|
                        0 <= i < left.len() && left[i] == (src_guild_id, dest_guild_id);
                    assert(i > 0);
                    assert(pending@[i - 1] == left[i]);
                }
                assert forall|row: MappingView| #[trigger]
                    before.contains(row) && !is_unused(row, configured) implies after.contains(
                    row,
                ) by {
                    assert(base.contains(row));
                    if is_between(row, src, dest) {
                        assert(is_unused(row, configured));
                    }
                }
                cleaning_continues(ended, pending@, before, after, next, progress);
            }
        },
        _ => {},
    }
}

/// Where nothing fails, cleaning up takes the mappings between guilds that are not configured,
/// and nothing else, out of the table.
pub proof fn unused_mappings_are_forgotten(
    tasks: Seq<CleanupUnusedMappings>,
    replies: Seq<Reply>,
    progress: Seq<Progress<(), MappingsError>>,
    tables: Seq<Table>,
)
    requires
        is_run(tasks, replies, progress),
        is_served(replies, progress, tables),
        tasks[0].stage is Begin,
        replies.len() > 0,
        progress.last() is Done,
        has_unique_keys(tables[0]),
    ensures
        tables.last() == tables[0].filter(
            |row: MappingView| !is_unused(row, tasks[0].configured@),
        ),
{
    cleaned_up_to(tasks, replies, progress, tables, replies.len() - 1);
}

proof fn cleaned_up_to(
    tasks: Seq<CleanupUnusedMappings>,
    replies: Seq<Reply>,
    progress: Seq<Progress<(), MappingsError>>,
    tables: Seq<Table>,
    k: int,
)
    requires
        is_run(tasks, replies, progress),
        is_served(replies, progress, tables),
        tasks[0].stage is Begin,
        0 <= k < replies.len(),
        has_unique_keys(tables[0]),
    ensures
        tasks[k + 1].configured == tasks[0].configured,
        match progress[k] {
            Progress::Perform(action) => tasks[k + 1].has_come_to(action, tables[0], tables[k]),
            Progress::Done(()) => tables[k] == tables[0].filter(
                |row: MappingView| !is_unused(row, tasks[0].configured@),
            ),
            Progress::Failed(_) => false,
        },
    decreases k,
{
    let reply = replies[k];
    if k > 0 {
        cleaned_up_to(tasks, replies, progress, tables, k - 1);
        if !(progress[k - 1] is Perform) {
            runs_end(tasks, replies, progress, k - 1);
        }
        cleaning_goes_on(
            tasks[k],
            progress[k - 1]->Perform_0,
            tables[0],
            tables[k - 1],
            reply,
            tables[k],
            tasks[k + 1],
            progress[k],
        );
    }
}

/// Whether a mapping is one of a channel that is blacklisted.
pub open spec fn is_barred(row: MappingView, blacklists: Seq<Blacklist>) -> bool {
    exists|id: u64|
        #![trigger blacklists.contains(Blacklist::Channel(id))]
        blacklists.contains(Blacklist::Channel(id)) && leads_from(row, id)
}

impl UnregisterBlacklistedChannels {
    /// Whether this is a forgetting that waits for the answer to an operation, with the table
    /// that it began with and the one that it has come to: of blacklisted channels only the
    /// mappings of those that are left are still there, and no other mapping is gone.
    pub open spec fn has_come_to(
        self,
        blacklists: Seq<Blacklist>,
        asked: Action,
        before: Table,
        table: Table,
    ) -> bool {
        &&& forall|row: MappingView| #[trigger] table.contains(row) ==> before.contains(row)
        &&& forall|row: MappingView| #[trigger]
            before.contains(row) && !is_barred(row, blacklists) ==> table.contains(row)
        &&& match self.stage {
            BlacklistStage::Finding { pending } => {
                &&& asked matches Action::FindMapping { orig_id }
                &&& blacklists.contains(Blacklist::Channel(orig_id))
                &&& leaves_only(table, blacklists, seq![Blacklist::Channel(orig_id)] + pending@)
            },
            BlacklistStage::Unregistering { pending } => {
                &&& asked matches Action::UnregisterMapping(mapping)
                &&& table.contains(mapping@) && is_barred(mapping@, blacklists)
                &&& leaves_only(without(table, mapping@), blacklists, pending@)
            },
            _ => false,
        }
    }
}

/// Whether, of the channels that are blacklisted, only some that are left are registered.
pub open spec fn leaves_only(table: Table, blacklists: Seq<Blacklist>, left: Seq<Blacklist>) -> bool {
    &&& forall|i: int| 0 <= i < left.len() ==> blacklists.contains(#[trigger] left[i])
    &&& forall|row: MappingView, id: u64|
        #![trigger table.contains(row), leads_from(row, id)]
        table.contains(row) && leads_from(row, id) && blacklists.contains(Blacklist::Channel(id))
            ==> left.contains(Blacklist::Channel(id))
}

/// Skipping what is no channel at the front keeps all channels.
proof fn next_channel_keeps(pending: Seq<Blacklist>, id: u64)
    requires
        pending.contains(Blacklist::Channel(id)),
    ensures
        from_next_channel(pending).contains(Blacklist::Channel(id)),
    decreases pending.len(),
{
    if !(pending[0] is Channel) {
        let i = choose|i: int| 0 <= i < pending.len() && pending[i] == Blacklist::Channel(id);
        assert(pending.drop_first()[i - 1] == Blacklist::Channel(id));
        next_channel_keeps(pending.drop_first(), id);
    }
}

/// What is left is among what was there, and begins with a channel.
pub(crate) proof fn next_channel_is_listed(pending: Seq<Blacklist>, blacklists: Seq<Blacklist>)
    requires
        forall|i: int| 0 <= i < pending.len() ==> blacklists.contains(#[trigger] pending[i]),
    ensures
        ({
            let left = from_next_channel(pending);
            &&& forall|i: int| 0 <= i < left.len() ==> blacklists.contains(#[trigger] left[i])
            &&& left.len() > 0 ==> left[0] is Channel
        }),
    decreases pending.len(),
{
    if pending.len() > 0 && !(pending[0] is Channel) {
        let rest = pending.drop_first();
        assert forall|i: int| 0 <= i < rest.len() implies blacklists.contains(
            #[trigger] rest[i],
        ) by {
            assert(rest[i] == pending[i + 1]);
        }
        next_channel_is_listed(rest, blacklists);
    }
}

/// What a forgetting has come to while some entries are left.
pub(crate) proof fn unregistering_continues(
    blacklists: Seq<Blacklist>,
    left: Seq<Blacklist>,
    before: Table,
    table: Table,
    next: UnregisterBlacklistedChannels,
    progress: Progress<(), MappingsError>,
)
    requires
        forall|row: MappingView| #[trigger] table.contains(row) ==> before.contains(row),
        forall|row: MappingView| #[trigger]
            before.contains(row) && !is_barred(row, blacklists) ==> table.contains(row),
        leaves_only(table, blacklists, left),
        UnregisterBlacklistedChannels::continues(left, next, progress),
    ensures
        match progress {
            Progress::Perform(action) => next.has_come_to(blacklists, action, before, table),
            Progress::Done(()) => table == before.filter(
                |row: MappingView| !is_barred(row, blacklists),
            ),
            Progress::Failed(_) => false,
        },
{
    let rest = from_next_channel(left);
    next_channel_is_listed(left, blacklists);
    assert forall|id: u64| left.contains(Blacklist::Channel(id)) implies rest.contains(
        Blacklist::Channel(id),
    ) by {
        next_channel_keeps(left, id);
    }
    if rest.len() == 0 {
        assert(table =~= before.filter(|row: MappingView| !is_barred(row, blacklists)));
    } else {
        assert(rest[0] == Blacklist::Channel(rest[0].spec_id()));
        assert(seq![rest[0]] + rest.drop_first() =~= rest);
    }
}

/// One step of a forgetting, from what its last operation made of the table.
pub(crate) proof fn unregistering_goes_on(
    task: UnregisterBlacklistedChannels,
    blacklists: Seq<Blacklist>,
    asked: Action,
    before: Table,
    table: Table,
    reply: Reply,
    after: Table,
    next: UnregisterBlacklistedChannels,
    progress: Progress<(), MappingsError>,
)
    requires
        has_unique_origins(before),
        task.has_come_to(blacklists, asked, before, table),
        serves(table, asked, reply, after),
        task.awaits() is Some,
        reply.answers(task.awaits()->0),
        task.step(reply, next, progress),
    ensures
        match progress {
            Progress::Perform(action) => next.has_come_to(blacklists, action, before, after),
            Progress::Done(()) => after == before.filter(
                |row: MappingView| !is_barred(row, blacklists),
            ),
            Progress::Failed(_) => false,
        },
{
    match task.stage {
        BlacklistStage::Finding { pending } => {
            let id = asked->FindMapping_orig_id;
            let all = seq![Blacklist::Channel(id)] + pending@;
            assert(all.drop_first() =~= pending@);
            assert forall|other: Blacklist| all.contains(other) && other != Blacklist::Channel(
                id,
            ) implies pending@.contains(other) by {
                let i = choose|i: int| 0 <= i < all.len() && all[i] == other;
                assert(pending@[i - 1] == other);
            }
            assert forall|i: int| 0 <= i < pending@.len() implies blacklists.contains(
                #[trigger] pending@[i],
            ) by {
                assert(all[i + 1] == pending@[i]);
            }
            match reply->Mapping_0 {
                Some(mapping) => {
                    assert(leaves_only(without(after, mapping@), blacklists, pending@));
                },
                None => {
                    unregistering_continues(blacklists, pending@, before, after, next, progress);
                },
            }
        },
        BlacklistStage::Unregistering { pending } => {
            unregistering_continues(blacklists, pending@, before, after, next, progress);
        },
        _ => {},
    }
}

/// Where nothing fails, forgetting the channels that are blacklisted takes their mappings, and
/// nothing else, out of the table.
pub proof fn blacklisted_channels_are_forgotten(
    tasks: Seq<UnregisterBlacklistedChannels>,
    replies: Seq<Reply>,
    progress: Seq<Progress<(), MappingsError>>,
    tables: Seq<Table>,
    blacklists: Vec<Blacklist>,
)
    requires
        is_run(tasks, replies, progress),
        is_served(replies, progress, tables),
        tasks[0].stage == (BlacklistStage::Begin { pending: blacklists }),
        replies.len() > 0,
        progress.last() is Done,
        has_unique_origins(tables[0]),
    ensures
        tables.last() == tables[0].filter(|row: MappingView| !is_barred(row, blacklists@)),
{
    unregistered_blacklisted_up_to(
        tasks,
        replies,
        progress,
        tables,
        blacklists,
        replies.len() - 1,
    );
}

proof fn unregistered_blacklisted_up_to(
    tasks: Seq<UnregisterBlacklistedChannels>,
    replies: Seq<Reply>,
    progress: Seq<Progress<(), MappingsError>>,
    tables: Seq<Table>,
    blacklists: Vec<Blacklist>,
    k: int,
)
    requires
        is_run(tasks, replies, progress),
        is_served(replies, progress, tables),
        tasks[0].stage == (BlacklistStage::Begin { pending: blacklists }),
        0 <= k < replies.len(),
        has_unique_origins(tables[0]),
    ensures
        match progress[k] {
            Progress::Perform(action) => tasks[k + 1].has_come_to(
                blacklists@,
                action,
                tables[0],
                tables[k],
            ),
            Progress::Done(()) => tables[k] == tables[0].filter(
                |row: MappingView| !is_barred(row, blacklists@),
            ),
            Progress::Failed(_) => false,
        },
    decreases k,
{
    let reply = replies[k];
    if k > 0 {
        unregistered_blacklisted_up_to(tasks, replies, progress, tables, blacklists, k - 1);
        if !(progress[k - 1] is Perform) {
            runs_end(tasks, replies, progress, k - 1);
        }
        unregistering_goes_on(
            tasks[k],
            blacklists@,
            progress[k - 1]->Perform_0,
            tables[0],
            tables[k - 1],
            reply,
            tables[k],
            tasks[k + 1],
            progress[k],
        );
    } else {
        unregistering_continues(
            blacklists@,
            blacklists@,
            tables[0],
            tables[0],
            tasks[1],
            progress[0],
        );
    }
}

} // verus!
