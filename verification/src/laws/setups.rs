//! What is asked for while a mirror is set up.
use super::content::asked;
use super::creating::{
    covered_without, mirroring_begins, mirroring_channels_goes_on, Job,
};
use super::roles::{self, RoleJob};
use crate::blacklist::Blacklist;
use crate::config::GuildSettings;
use crate::errors::{Failure, MappingsError};
use crate::model::{are_copies, is_copy, Channel, Guild, IdMapping, Role};
use crate::operation::{is_run, runs_end, Action, Progress, Reply, Task};
use crate::util::cleanup::{
    configured_pairs, configured_pairs_are_kept, from_next_channel, next_channel_is_listed,
    unconfigured, BlacklistStage, CleanupStage, CleanupUnusedMappings, ForgetMappings,
    ForgetStage, Listing, UnregisterBlacklistedChannels,
};
use crate::util::filter::{
    FilterBarChannels, FilterBarRoles, FilterChannelsStage, FilterRolesStage,
};
use crate::util::mirror::{MirrorChannels, MirrorError, MirrorStage};
use crate::util::register::{RegisterMappings, RegisterStage};
use crate::util::roles::{CreateRoles, CreateRolesStage, RoleMap};
use crate::util::setup::{GuildStage, RegisterGuild, RegisterGuildSettings, SetupStage};
use vstd::prelude::*;

verus! {

/// Whether two lists hold the same entries.
pub open spec fn same_entries(a: Seq<Blacklist>, b: Seq<Blacklist>) -> bool {
    forall|entry: Blacklist| #[trigger] a.contains(entry) <==> b.contains(entry)
}

/// The setting up of one mirror, from answer `base` on: what it asked for, and what was answered.
pub struct Setup {
    pub settings: GuildSettings,
    pub base: int,
    pub actions: Seq<Option<Action>>,
    pub replies: Seq<Reply>,
}

impl Setup {
    /// The guild that is mirrored, as it was got.
    pub open spec fn src_guild_id(self) -> u64 {
        self.replies[self.base + 2]->Guild_0.id
    }

    /// The guild that mirrors it, as it was got.
    pub open spec fn dest_guild(self) -> Guild {
        self.replies[self.base + 3]->Guild_0
    }

    /// The channels that the mirrored guild has.
    pub open spec fn channels(self) -> Vec<Channel> {
        self.replies[self.base + 5]->Channels_0
    }

    /// The roles that the mirrored guild has.
    pub open spec fn roles(self) -> Vec<Role> {
        self.replies[self.base + 6]->Roles_0
    }

    /// Whether something is kept out.
    pub open spec fn bars(self, entry: Blacklist) -> bool {
        self.settings.blacklists@.contains(entry)
    }

    /// Whether a mapping was looked for, and found.
    pub open spec fn was_found(self, id: u64) -> bool {
        exists|j: int|
            {
                &&& 0 < j < self.replies.len()
                &&& self.actions[j - 1] == Some(Action::FindMapping { orig_id: id })
                &&& (#[trigger] self.replies[j]) matches Reply::Mapping(Some(_))
            }
    }

    /// Whether a mapping was looked for, and not found.
    pub open spec fn was_missing(self, id: u64) -> bool {
        exists|j: int|
            {
                &&& 0 < j < self.replies.len()
                &&& self.actions[j - 1] == Some(Action::FindMapping { orig_id: id })
                &&& !((#[trigger] self.replies[j]) matches Reply::Mapping(Some(_)))
            }
    }

    /// The channels that are to be mirrored: those of the mirrored guild that are neither kept out nor
    /// registered.
    pub open spec fn channel_job(self) -> Job {
        Job {
            sources: self.channels()@,
            barred: self.settings.blacklists@,
            free: |id: u64| self.was_missing(id),
            found: |id: u64| self.was_found(id),
            src_guild_id: self.src_guild_id(),
            dest_guild: self.dest_guild(),
        }
    }

    /// The roles that are to be mirrored: those of the mirrored guild that are neither kept out nor
    /// registered.
    pub open spec fn role_job(self) -> RoleJob {
        RoleJob {
            sources: self.roles()@,
            barred: self.settings.blacklists@,
            free: |id: u64| self.was_missing(id),
            found: |id: u64| self.was_found(id),
            src_guild_id: self.src_guild_id(),
            dest_guild_id: self.dest_guild().id,
        }
    }

    /// Whether both guilds were got, and the one that is mirrored was listed.
    pub open spec fn has_listed(self) -> bool {
        &&& 0 <= self.base
        &&& self.base + 6 < self.replies.len()
        &&& self.actions[self.base + 1] == Some(Action::GetGuild(self.settings.src_guild_id))
        &&& self.replies[self.base + 2] is Guild
        &&& self.actions[self.base + 2] == Some(Action::GetGuild(self.settings.dest_guild_id))
        &&& self.replies[self.base + 3] is Guild
        &&& self.actions[self.base + 4] == Some(Action::GetGuildChannels(self.src_guild_id()))
        &&& self.replies[self.base + 5] is Channels
        &&& self.actions[self.base + 5] == Some(Action::GetRoles(self.src_guild_id()))
        &&& self.replies[self.base + 6] is Roles
    }

    /// Whether a mapping is the one that answer `k` tells of a channel that is kept out.
    pub open spec fn is_of_barred(self, mapping: IdMapping, k: int) -> bool {
        &&& self.actions[k - 1] matches Some(Action::FindMapping { orig_id }) && self.bars(
            Blacklist::Channel(orig_id),
        )
        &&& self.replies[k] matches Reply::Mapping(Some(found)) && found@ == mapping@
    }

    /// Whether something is looked for that is kept out, or is in the mirrored guild.
    pub open spec fn is_looked_for(self, id: u64) -> bool {
        ||| self.bars(Blacklist::Channel(id))
        ||| exists|x: int| 0 <= x < self.channels()@.len() && (#[trigger] self.channels()@[x]).id == id
        ||| exists|x: int| 0 <= x < self.roles()@.len() && (#[trigger] self.roles()@[x]).id == id
    }

    /// What is asked for after answer `k`: first the two guilds and what the mirrored one has. Once it
    /// is known, and the guilds are not the same, the mappings of what is kept out are removed, and what
    /// is neither kept out nor registered is created in the mirroring guild and registered.
    pub open spec fn is_asked(self, action: Action, k: int) -> bool {
        let step = k - self.base;
        if step == 0 {
            action is Connect
        } else if step == 1 {
            action == Action::GetGuild(self.settings.src_guild_id)
        } else if step == 2 {
            action == Action::GetGuild(self.settings.dest_guild_id)
        } else if step == 3 || step == 6 {
            action == Action::Sleep(2)
        } else if step == 4 {
            action == Action::GetGuildChannels(self.src_guild_id())
        } else if step == 5 {
            action == Action::GetRoles(self.src_guild_id())
        } else {
            &&& self.has_listed()
            &&& self.src_guild_id() != self.dest_guild().id
            &&& match action {
                Action::FindMapping { orig_id } => self.is_looked_for(orig_id),
                Action::UnregisterMapping(mapping) => self.is_of_barred(mapping, k),
                Action::CreateRole { guild_id, .. } => {
                    &&& self.settings.clone_roles
                    &&& guild_id == self.dest_guild().id
                    &&& exists|role: Role| #[trigger]
                        self.role_job().makes(action, role) && self.role_job().holds(role)
                },
                Action::RegisterMapping(mapping) => {
                    ||| self.channel_job().is_recorded(mapping, self.actions, self.replies, k)
                    ||| self.settings.clone_roles && self.role_job().is_recorded(
                        mapping,
                        self.actions,
                        self.replies,
                        k,
                    )
                },
                Action::CreateChannel(request) => {
                    &&& request.guild_id == self.dest_guild().id
                    &&& self.channel_job().is_for(
                        action,
                        self.channels()@,
                        self.actions,
                        self.replies,
                        k,
                    )
                },
                _ => self.channel_job().is_for(
                    action,
                    self.channels()@,
                    self.actions,
                    self.replies,
                    k,
                ),
            }
        }
    }

    /// Whether nothing is left to be asked for: every channel, and every role where roles are mirrored,
    /// is kept out, is registered, cannot be mirrored, or was asked for.
    pub open spec fn is_complete(self) -> bool {
        &&& self.has_listed()
        &&& self.src_guild_id() != self.dest_guild().id ==> {
            &&& forall|x: int|
                0 <= x < self.channels()@.len() ==> self.channel_job().is_settled(
                    #[trigger] self.channels()@[x],
                    self.actions,
                )
            &&& self.settings.clone_roles ==> forall|x: int|
                0 <= x < self.roles()@.len() ==> self.role_job().is_settled(
                    #[trigger] self.roles()@[x],
                    self.actions,
                )
        }
    }
}

// ---------------------------------------------------------------------------
// Filtering channels
// ---------------------------------------------------------------------------

impl Setup {
    /// Whether a channel is a copy of one of the mirrored guild.
    pub open spec fn is_from(self, channel: Channel) -> bool {
        exists|x: int|
            0 <= x < self.channels()@.len() && is_copy(channel, #[trigger] self.channels()@[x])
    }

    /// Whether all of these are copies of channels of the mirrored guild.
    pub open spec fn are_from(self, channels: Seq<Channel>) -> bool {
        forall|i: int| 0 <= i < channels.len() ==> self.is_from(#[trigger] channels[i])
    }

    /// Whether a filtering of channels waits for the answer after `k`.
    pub open spec fn is_filtering_channels(self, task: FilterBarChannels, k: int) -> bool {
        &&& same_entries(task.blacklists_sorted@, self.settings.blacklists@)
        &&& task.stage matches FilterChannelsStage::LookingUp { channel, pending, kept }
        &&& self.is_from(channel)
        &&& self.are_from(pending@)
        &&& self.channel_job().holds_all(kept@)
        &&& self.channel_job().covers(kept@ + seq![channel] + pending@, self.actions)
        &&& self.actions[k] == Some(Action::FindMapping { orig_id: channel.id })
    }

    /// What a filtering of channels has come to after answer `k`.
    pub open spec fn has_filtered_channels(
        self,
        next: FilterBarChannels,
        progress: Progress<Vec<Channel>, MappingsError>,
        k: int,
    ) -> bool {
        match progress {
            Progress::Perform(action) => {
                &&& self.is_filtering_channels(next, k)
                &&& action matches Action::FindMapping { orig_id } && self.is_looked_for(orig_id)
            },
            Progress::Done(kept) => {
                &&& self.channel_job().holds_all(kept@)
                &&& self.channel_job().covers(kept@, self.actions)
            },
            Progress::Failed(_) => true,
        }
    }
}

/// What a filtering of channels has come to while some are left.
proof fn filtering_channels_continues(
    setup: Setup,
    task: FilterBarChannels,
    pending: Seq<Channel>,
    kept: Seq<Channel>,
    next: FilterBarChannels,
    progress: Progress<Vec<Channel>, MappingsError>,
    k: int,
)
    requires
        same_entries(task.blacklists_sorted@, setup.settings.blacklists@),
        setup.are_from(pending),
        setup.channel_job().holds_all(kept),
        setup.channel_job().covers(kept + pending, setup.actions),
        task.continues(pending, kept, next, progress),
        progress matches Progress::Perform(action) ==> setup.actions[k] == Some(action),
    ensures
        setup.has_filtered_channels(next, progress, k),
{
    if pending.len() == 0 {
        assert(kept + pending =~= kept);
    } else {
        let rest = pending.drop_first();
        assert(setup.is_from(pending[0]));
        assert forall|i: int| 0 <= i < rest.len() implies setup.is_from(#[trigger] rest[i]) by {
            assert(rest[i] == pending[i + 1]);
        }
        assert(kept + seq![pending[0]] + rest =~= kept + pending);
    }
}

/// One step of a filtering of channels.
proof fn filtering_channels_goes_on(
    setup: Setup,
    task: FilterBarChannels,
    next: FilterBarChannels,
    progress: Progress<Vec<Channel>, MappingsError>,
    k: int,
)
    requires
        setup.is_filtering_channels(task, k - 1),
        task.step(setup.replies[k], next, progress),
        0 < k < setup.replies.len(),
        progress matches Progress::Perform(action) ==> setup.actions[k] == Some(action),
    ensures
        setup.has_filtered_channels(next, progress, k),
{
    let job = setup.channel_job();
    let ended = task.at(FilterChannelsStage::Ended);
    let reply = setup.replies[k];
    if let FilterChannelsStage::LookingUp { channel, pending, kept } = task.stage {
        let left = kept@ + seq![channel] + pending@;
        let found = reply matches Reply::Mapping(Some(_));
        let after = ended.kept_with(kept@, channel, found);
        let src = choose|x: int|
            0 <= x < setup.channels()@.len() && is_copy(channel, #[trigger] setup.channels()@[x]);
        assert(left[kept@.len() as int] == channel);
        if found || setup.bars(Blacklist::Channel(channel.id)) {
            assert forall|src: Channel| is_copy(channel, src) implies #[trigger] job.is_settled(
                src,
                setup.actions,
            ) by {}
            covered_without(job, left, kept@.len() as int, setup.actions);
            assert(left.remove(kept@.len() as int) =~= kept@ + pending@);
        } else {
            assert(job.is_source(setup.channels()@[src]));
            assert(kept@.push(channel) + pending@ =~= left);
        }
        if reply is Mapping || reply matches Reply::Failed(Failure::Database(_)) {
            filtering_channels_continues(setup, ended, pending@, after, next, progress, k);
        }
    }
}

// ---------------------------------------------------------------------------
// Filtering roles
// ---------------------------------------------------------------------------

impl Setup {
    /// Whether all of these are roles of the mirrored guild.
    pub open spec fn are_roles(self, roles: Seq<Role>) -> bool {
        forall|i: int| 0 <= i < roles.len() ==> self.roles()@.contains(#[trigger] roles[i])
    }

    /// Whether a filtering of roles waits for the answer after `k`.
    pub open spec fn is_filtering_roles(self, task: FilterBarRoles, k: int) -> bool {
        &&& same_entries(task.blacklists_sorted@, self.settings.blacklists@)
        &&& task.stage matches FilterRolesStage::LookingUp { role, pending, kept }
        &&& self.roles()@.contains(role)
        &&& self.are_roles(pending@)
        &&& self.role_job().holds_all(kept@)
        &&& self.role_job().covers(kept@ + seq![role] + pending@, self.actions)
        &&& self.actions[k] == Some(Action::FindMapping { orig_id: role.id })
    }

    /// What a filtering of roles has come to after answer `k`.
    pub open spec fn has_filtered_roles(
        self,
        next: FilterBarRoles,
        progress: Progress<Vec<Role>, MappingsError>,
        k: int,
    ) -> bool {
        match progress {
            Progress::Perform(action) => {
                &&& self.is_filtering_roles(next, k)
                &&& action matches Action::FindMapping { orig_id } && self.is_looked_for(orig_id)
            },
            Progress::Done(kept) => {
                &&& self.role_job().holds_all(kept@)
                &&& self.role_job().covers(kept@, self.actions)
            },
            Progress::Failed(_) => true,
        }
    }
}

/// What a filtering of roles has come to while some are left.
proof fn filtering_roles_continues(
    setup: Setup,
    task: FilterBarRoles,
    pending: Seq<Role>,
    kept: Seq<Role>,
    next: FilterBarRoles,
    progress: Progress<Vec<Role>, MappingsError>,
    k: int,
)
    requires
        same_entries(task.blacklists_sorted@, setup.settings.blacklists@),
        setup.are_roles(pending),
        setup.role_job().holds_all(kept),
        setup.role_job().covers(kept + pending, setup.actions),
        task.continues(pending, kept, next, progress),
        progress matches Progress::Perform(action) ==> setup.actions[k] == Some(action),
    ensures
        setup.has_filtered_roles(next, progress, k),
{
    if pending.len() == 0 {
        assert(kept + pending =~= kept);
    } else {
        let rest = pending.drop_first();
        assert(setup.roles()@.contains(pending[0]));
        assert forall|i: int| 0 <= i < rest.len() implies setup.roles()@.contains(
            #[trigger] rest[i],
        ) by {
            assert(rest[i] == pending[i + 1]);
        }
        assert(kept + seq![pending[0]] + rest =~= kept + pending);
    }
}

/// One step of a filtering of roles.
proof fn filtering_roles_goes_on(
    setup: Setup,
    task: FilterBarRoles,
    next: FilterBarRoles,
    progress: Progress<Vec<Role>, MappingsError>,
    k: int,
)
    requires
        setup.is_filtering_roles(task, k - 1),
        task.step(setup.replies[k], next, progress),
        0 < k < setup.replies.len(),
        progress matches Progress::Perform(action) ==> setup.actions[k] == Some(action),
    ensures
        setup.has_filtered_roles(next, progress, k),
{
    let job = setup.role_job();
    let ended = task.at(FilterRolesStage::Ended);
    let reply = setup.replies[k];
    if let FilterRolesStage::LookingUp { role, pending, kept } = task.stage {
        let left = kept@ + seq![role] + pending@;
        let found = reply matches Reply::Mapping(Some(_));
        let after = ended.kept_with(kept@, role, found);
        assert(left[kept@.len() as int] == role);
        if found || setup.bars(Blacklist::Role(role.id)) {
            roles::covered_without(job, left, kept@.len() as int, setup.actions);
            assert(left.remove(kept@.len() as int) =~= kept@ + pending@);
        } else {
            assert(job.holds(role));
            assert(kept@.push(role) + pending@ =~= left);
        }
        if reply is Mapping || reply matches Reply::Failed(Failure::Database(_)) {
            filtering_roles_continues(setup, ended, pending@, after, next, progress, k);
        }
    }
}

// ---------------------------------------------------------------------------
// Forgetting what is kept out
// ---------------------------------------------------------------------------

impl Setup {
    /// Whether all of these are kept out.
    pub open spec fn are_barred(self, entries: Seq<Blacklist>) -> bool {
        forall|i: int| 0 <= i < entries.len() ==> self.bars(#[trigger] entries[i])
    }

    /// Whether a forgetting waits for the answer after `k`.
    pub open spec fn is_forgetting(self, task: UnregisterBlacklistedChannels, k: int) -> bool {
        match task.stage {
            BlacklistStage::Finding { pending } => {
                &&& self.are_barred(pending@)
                &&& self.actions[k] matches Some(Action::FindMapping { orig_id }) && self.bars(
                    Blacklist::Channel(orig_id),
                )
            },
            BlacklistStage::Unregistering { pending } => self.are_barred(pending@),
            _ => false,
        }
    }

    /// What a forgetting has come to after answer `k`.
    pub open spec fn has_forgotten(
        self,
        next: UnregisterBlacklistedChannels,
        progress: Progress<(), MappingsError>,
        k: int,
    ) -> bool {
        progress matches Progress::Perform(action) ==> {
            &&& self.is_forgetting(next, k)
            &&& match action {
                Action::FindMapping { orig_id } => self.is_looked_for(orig_id),
                Action::UnregisterMapping(mapping) => self.is_of_barred(mapping, k),
                _ => false,
            }
        }
    }
}

/// What a forgetting has come to while some entries are left.
proof fn forgetting_continues(
    setup: Setup,
    pending: Seq<Blacklist>,
    next: UnregisterBlacklistedChannels,
    progress: Progress<(), MappingsError>,
    k: int,
)
    requires
        setup.are_barred(pending),
        UnregisterBlacklistedChannels::continues(pending, next, progress),
        progress matches Progress::Perform(action) ==> setup.actions[k] == Some(action),
    ensures
        setup.has_forgotten(next, progress, k),
{
    next_channel_is_listed(pending, setup.settings.blacklists@);
    let left = from_next_channel(pending);
    if left.len() > 0 {
        assert(setup.bars(left[0]));
        assert forall|i: int| 0 <= i < left.drop_first().len() implies setup.bars(
            #[trigger] left.drop_first()[i],
        ) by {
            assert(left.drop_first()[i] == left[i + 1]);
        }
    }
}

/// One step of a forgetting.
proof fn forgetting_goes_on(
    setup: Setup,
    task: UnregisterBlacklistedChannels,
    next: UnregisterBlacklistedChannels,
    progress: Progress<(), MappingsError>,
    k: int,
)
    requires
        setup.is_forgetting(task, k - 1),
        task.step(setup.replies[k], next, progress),
        progress matches Progress::Perform(action) ==> setup.actions[k] == Some(action),
    ensures
        setup.has_forgotten(next, progress, k),
{
    match (task.stage, setup.replies[k]) {
        (BlacklistStage::Finding { pending }, Reply::Mapping(None)) => {
            forgetting_continues(setup, pending@, next, progress, k);
        },
        (BlacklistStage::Unregistering { pending }, Reply::Done) => {
            forgetting_continues(setup, pending@, next, progress, k);
        },
        _ => {},
    }
}

// ---------------------------------------------------------------------------
// One mirror
// ---------------------------------------------------------------------------

impl Setup {
    /// Whether a task is the setting up of the mirror.
    pub open spec fn is_of(self, task: RegisterGuild) -> bool {
        &&& task.src_guild_id == self.settings.src_guild_id
        &&& task.dest_guild_id == self.settings.dest_guild_id
        &&& task.clone_roles == self.settings.clone_roles
        &&& same_entries(task.blacklists_sorted@, self.settings.blacklists@)
        &&& 0 <= self.base
        &&& self.replies.len() == self.actions.len()
    }

    /// Whether both guilds are known at answer `k`, and are not the same.
    pub open spec fn is_under_way(self, task: RegisterGuild, k: int) -> bool {
        &&& self.is_of(task)
        &&& self.base + 7 <= k < self.replies.len()
        &&& self.has_listed()
        &&& self.src_guild_id() != self.dest_guild().id
    }

    /// Whether a registration of roles waits for the answer after `k`.
    pub open spec fn is_registering_roles(self, registering: RegisterMappings, k: int) -> bool {
        &&& self.settings.clone_roles
        &&& registering.wf()
        &&& registering.stage is Registering
        &&& self.role_job().are_recorded(registering.records@, self.actions, self.replies, k)
    }

    /// Whether the setting up waits for the answer after `k`.
    pub open spec fn is_waiting(self, task: RegisterGuild, k: int) -> bool {
        let base = self.base;
        &&& self.is_of(task)
        &&& base <= k < self.replies.len()
        &&& match task.stage {
            GuildStage::Connecting => k == base,
            GuildStage::GettingSrc => {
                &&& k == base + 1
                &&& self.actions[k] == Some(Action::GetGuild(self.settings.src_guild_id))
            },
            GuildStage::GettingDest { src_guild_id } => {
                &&& k == base + 2
                &&& self.actions[base + 1] == Some(Action::GetGuild(self.settings.src_guild_id))
                &&& self.replies[base + 2] is Guild
                &&& src_guild_id == self.src_guild_id()
                &&& self.actions[k] == Some(Action::GetGuild(self.settings.dest_guild_id))
            },
            GuildStage::Resting { src_guild_id, dest_guild } => {
                &&& k == base + 3
                &&& self.has_got(src_guild_id, dest_guild)
            },
            GuildStage::ListingChannels { src_guild_id, dest_guild } => {
                &&& k == base + 4
                &&& self.has_got(src_guild_id, dest_guild)
                &&& self.actions[k] == Some(Action::GetGuildChannels(src_guild_id))
            },
            GuildStage::ListingRoles { src_guild_id, dest_guild, src_channels } => {
                &&& k == base + 5
                &&& self.has_got(src_guild_id, dest_guild)
                &&& self.actions[base + 4] == Some(Action::GetGuildChannels(src_guild_id))
                &&& self.replies[base + 5] == Reply::Channels(src_channels)
                &&& self.actions[k] == Some(Action::GetRoles(src_guild_id))
            },
            GuildStage::RestingAgain { src_guild_id, dest_guild, src_channels, src_roles } => {
                &&& k == base + 6
                &&& self.knows(src_guild_id, dest_guild, src_channels, src_roles)
            },
            GuildStage::Unregistering {
                src_guild_id,
                dest_guild,
                src_channels,
                src_roles,
                unregistering,
            } => {
                &&& self.is_under_way(task, k)
                &&& self.knows(src_guild_id, dest_guild, src_channels, src_roles)
                &&& self.is_forgetting(unregistering, k)
            },
            GuildStage::FilteringChannels {
                src_guild_id,
                dest_guild,
                src_channels,
                src_roles,
                filtering,
            } => {
                &&& self.is_under_way(task, k)
                &&& self.knows(src_guild_id, dest_guild, src_channels, src_roles)
                &&& self.is_filtering_channels(filtering, k)
            },
            GuildStage::FilteringRoles {
                src_guild_id,
                dest_guild,
                src_channels,
                channels,
                filtering,
            } => {
                &&& self.is_under_way(task, k)
                &&& self.knows(src_guild_id, dest_guild, src_channels, self.roles())
                &&& self.channel_job().holds_all(channels@)
                &&& self.channel_job().covers(channels@, self.actions)
                &&& self.is_filtering_roles(filtering, k)
            },
            GuildStage::Mirroring { src_guild_id, dest_guild_id, roles, mirroring } => {
                &&& self.is_under_way(task, k)
                &&& src_guild_id == self.src_guild_id()
                &&& dest_guild_id == self.dest_guild().id
                &&& self.role_job().holds_all(roles@)
                &&& self.role_job().covers(roles@, self.actions)
                &&& self.channel_job().is_mirroring(
                    mirroring,
                    self.channels(),
                    self.actions,
                    self.replies,
                    k,
                )
            },
            GuildStage::CreatingRoles { src_guild_id, dest_guild_id, creating } => {
                &&& self.is_under_way(task, k)
                &&& src_guild_id == self.src_guild_id()
                &&& dest_guild_id == self.dest_guild().id
                &&& self.settings.clone_roles
                &&& self.channel_job().covers(Seq::empty(), self.actions)
                &&& self.role_job().is_creating(creating, self.actions, self.replies, k)
            },
            GuildStage::RegisteringRoles { registering } => {
                &&& self.is_under_way(task, k)
                &&& self.channel_job().covers(Seq::empty(), self.actions)
                &&& self.role_job().covers(Seq::empty(), self.actions)
                &&& self.is_registering_roles(registering, k)
            },
            _ => false,
        }
    }

    /// Whether both guilds were got.
    pub open spec fn has_got(self, src_guild_id: u64, dest_guild: Guild) -> bool {
        let base = self.base;
        &&& self.actions[base + 1] == Some(Action::GetGuild(self.settings.src_guild_id))
        &&& self.replies[base + 2] is Guild
        &&& src_guild_id == self.src_guild_id()
        &&& self.actions[base + 2] == Some(Action::GetGuild(self.settings.dest_guild_id))
        &&& self.replies[base + 3] == Reply::Guild(dest_guild)
    }

    /// Whether this is what was got and listed.
    pub open spec fn knows(
        self,
        src_guild_id: u64,
        dest_guild: Guild,
        src_channels: Vec<Channel>,
        src_roles: Vec<Role>,
    ) -> bool {
        &&& self.has_listed()
        &&& self.has_got(src_guild_id, dest_guild)
        &&& src_channels == self.channels()
        &&& src_roles == self.roles()
    }

    /// What the setting up has come to after answer `k`.
    pub open spec fn has_set_up(
        self,
        next: RegisterGuild,
        progress: Progress<(), MappingsError>,
        k: int,
    ) -> bool {
        match progress {
            Progress::Perform(action) => self.is_waiting(next, k) && self.is_asked(action, k),
            Progress::Done(()) => self.is_complete(),
            Progress::Failed(_) => true,
        }
    }
}

/// Where nothing is left, everything is settled.
proof fn nothing_is_left(setup: Setup)
    requires
        setup.has_listed(),
        setup.channel_job().covers(Seq::empty(), setup.actions),
        setup.settings.clone_roles ==> setup.role_job().covers(Seq::empty(), setup.actions),
    ensures
        setup.is_complete(),
{
    assert forall|x: int| 0 <= x < setup.channels()@.len() implies setup.channel_job().is_settled(
        #[trigger] setup.channels()@[x],
        setup.actions,
    ) by {
        assert(setup.channel_job().sources[x] == setup.channels()@[x]);
    }
    if setup.settings.clone_roles {
        assert forall|x: int| 0 <= x < setup.roles()@.len() implies setup.role_job().is_settled(
            #[trigger] setup.roles()@[x],
            setup.actions,
        ) by {
            assert(setup.role_job().sources[x] == setup.roles()@[x]);
        }
    }
}

/// What follows from a step of registering the roles.
proof fn setting_up_registers(
    setup: Setup,
    task: RegisterGuild,
    before: RegisterMappings,
    reply: Reply,
    registering: RegisterMappings,
    registered: Progress<(), MappingsError>,
    next: RegisterGuild,
    progress: Progress<(), MappingsError>,
    k: int,
)
    requires
        setup.is_under_way(task, k),
        setup.settings.clone_roles,
        setup.channel_job().covers(Seq::empty(), setup.actions),
        setup.role_job().covers(Seq::empty(), setup.actions),
        before.wf(),
        setup.role_job().are_recorded(before.records@, setup.actions, setup.replies, k),
        before.step(reply, registering, registered),
        task.after_registering(registering, registered, next, progress),
    ensures
        setup.has_set_up(next, progress, k),
{
    nothing_is_left(setup);
    assert(before.records.len() == before.records@.len());
    if let Progress::Perform(Action::RegisterMapping(mapping)) = registered {
        let done = match (before.stage, reply) {
            (RegisterStage::Registering(i), Reply::Done) => i + 1,
            _ => 0,
        };
        let record = before.records@[done];
        assert(record is Ok);
        roles::recorded_by_view(
            setup.role_job(),
            record->Ok_0,
            mapping,
            setup.actions,
            setup.replies,
            k,
        );
    }
}

/// What follows from a step of creating the roles.
proof fn setting_up_creates(
    setup: Setup,
    task: RegisterGuild,
    creating: CreateRoles,
    created: Progress<RoleMap, MappingsError>,
    next: RegisterGuild,
    progress: Progress<(), MappingsError>,
    k: int,
)
    requires
        setup.is_under_way(task, k),
        setup.settings.clone_roles,
        setup.channel_job().covers(Seq::empty(), setup.actions),
        match created {
            Progress::Perform(action) => setup.role_job().is_creating(
                creating,
                setup.actions,
                setup.replies,
                k,
            ) && (action == Action::Sleep(1) || exists|src: Role| #[trigger]
                setup.role_job().makes(action, src) && setup.role_job().holds(src)),
            Progress::Done(map) => setup.role_job().were_created(
                map@,
                setup.actions,
                setup.replies,
                k,
            ) && setup.role_job().covers(Seq::empty(), setup.actions),
            Progress::Failed(_) => true,
        },
        task.after_creating(
            setup.src_guild_id(),
            setup.dest_guild().id,
            creating,
            created,
            next,
            progress,
        ),
    ensures
        setup.has_set_up(next, progress, k),
{
    if let Progress::Done(made) = created {
        let (before, registering, registered) = choose|
            before: RegisterMappings,
            registering: RegisterMappings,
            registered: Progress<(), MappingsError>,
        |
            #![trigger before.step(Reply::Begin, registering, registered)]
            {
                &&& before.registers_roles(made@, (setup.src_guild_id(), setup.dest_guild().id))
                &&& before.step(Reply::Begin, registering, registered)
                &&& task.after_registering(registering, registered, next, progress)
            };
        roles::created_is_recorded(
            setup.role_job(),
            made@,
            before,
            setup.actions,
            setup.replies,
            k,
        );
        setting_up_registers(
            setup,
            task,
            before,
            Reply::Begin,
            registering,
            registered,
            next,
            progress,
            k,
        );
    }
}

/// What follows once the channels are mirrored.
proof fn setting_up_has_channels(
    setup: Setup,
    task: RegisterGuild,
    roles: Vec<Role>,
    next: RegisterGuild,
    progress: Progress<(), MappingsError>,
    k: int,
)
    requires
        setup.is_under_way(task, k),
        setup.channel_job().covers(Seq::empty(), setup.actions),
        setup.role_job().holds_all(roles@),
        setup.role_job().covers(roles@, setup.actions),
        task.after_channels(setup.src_guild_id(), setup.dest_guild().id, roles, next, progress),
        progress matches Progress::Perform(action) ==> setup.actions[k] == Some(action),
    ensures
        setup.has_set_up(next, progress, k),
{
    if roles@.len() > 0 && task.clone_roles {
        let before = CreateRoles {
            dest_guild_id: setup.dest_guild().id,
            stage: CreateRolesStage::Begin { pending: roles },
        };
        let (creating, created) = choose|
            creating: CreateRoles,
            created: Progress<RoleMap, MappingsError>,
        |
            #![trigger task.after_creating(setup.src_guild_id(), setup.dest_guild().id, creating, created, next, progress)]
            {
                &&& before.step(Reply::Begin, creating, created)
                &&& task.after_creating(
                    setup.src_guild_id(),
                    setup.dest_guild().id,
                    creating,
                    created,
                    next,
                    progress,
                )
            };
        roles::creating_continues(
            setup.role_job(),
            before.at(CreateRolesStage::Ended),
            roles@,
            Seq::empty(),
            creating,
            created,
            setup.actions,
            setup.replies,
            k,
        );
        setting_up_creates(setup, task, creating, created, next, progress, k);
    } else {
        if roles@.len() == 0 {
            assert(roles@ =~= Seq::empty());
        }
        nothing_is_left(setup);
    }
}

/// What follows from a step of mirroring the channels.
proof fn setting_up_mirrors(
    setup: Setup,
    task: RegisterGuild,
    roles: Vec<Role>,
    mirroring: MirrorChannels,
    mirrored: Progress<(), MirrorError>,
    next: RegisterGuild,
    progress: Progress<(), MappingsError>,
    k: int,
)
    requires
        setup.is_under_way(task, k),
        setup.role_job().holds_all(roles@),
        setup.role_job().covers(roles@, setup.actions),
        setup.channel_job().has_mirrored(
            mirroring,
            mirrored,
            setup.channels(),
            setup.actions,
            setup.replies,
            k,
        ),
        task.after_mirroring(
            setup.src_guild_id(),
            setup.dest_guild().id,
            roles,
            mirroring,
            mirrored,
            next,
            progress,
        ),
        progress matches Progress::Perform(action) ==> setup.actions[k] == Some(action),
    ensures
        setup.has_set_up(next, progress, k),
{
    if mirrored is Done {
        setting_up_has_channels(setup, task, roles, next, progress, k);
    }
}

/// What follows from a step of filtering the roles.
proof fn setting_up_filters_roles(
    setup: Setup,
    task: RegisterGuild,
    channels: Vec<Channel>,
    filtering: FilterBarRoles,
    filtered: Progress<Vec<Role>, MappingsError>,
    next: RegisterGuild,
    progress: Progress<(), MappingsError>,
    k: int,
)
    requires
        setup.is_under_way(task, k),
        setup.channel_job().holds_all(channels@),
        setup.channel_job().covers(channels@, setup.actions),
        setup.has_filtered_roles(filtering, filtered, k),
        task.after_filtering_roles(
            setup.src_guild_id(),
            setup.dest_guild(),
            setup.channels(),
            channels,
            filtering,
            filtered,
            next,
            progress,
        ),
        progress matches Progress::Perform(action) ==> setup.actions[k] == Some(action),
    ensures
        setup.has_set_up(next, progress, k),
{
    if let Progress::Done(roles) = filtered {
        if channels@.len() > 0 {
            let before = MirrorChannels {
                src_guild_id: setup.src_guild_id(),
                dest_guild: setup.dest_guild(),
                stage: MirrorStage::Begin {
                    new_channels: channels,
                    src_channels: setup.channels(),
                },
            };
            let (mirroring, mirrored) = choose|
                mirroring: MirrorChannels,
                mirrored: Progress<(), MirrorError>,
            |
                #![trigger task.after_mirroring(setup.src_guild_id(), setup.dest_guild().id, roles, mirroring, mirrored, next, progress)]
                {
                    &&& before.step(Reply::Begin, mirroring, mirrored)
                    &&& task.after_mirroring(
                        setup.src_guild_id(),
                        setup.dest_guild().id,
                        roles,
                        mirroring,
                        mirrored,
                        next,
                        progress,
                    )
                };
            if let Progress::Perform(action) = mirrored {
                assert(setup.actions[k] == Some(action));
            }
            mirroring_begins(
                setup.channel_job(),
                before,
                channels,
                setup.channels(),
                mirroring,
                mirrored,
                setup.actions,
                setup.replies,
                k,
            );
            setting_up_mirrors(setup, task, roles, mirroring, mirrored, next, progress, k);
        } else {
            assert(channels@ =~= Seq::empty());
            setting_up_has_channels(setup, task, roles, next, progress, k);
        }
    }
}

/// What follows from a step of filtering the channels.
proof fn setting_up_filters_channels(
    setup: Setup,
    task: RegisterGuild,
    filtering: FilterBarChannels,
    filtered: Progress<Vec<Channel>, MappingsError>,
    next: RegisterGuild,
    progress: Progress<(), MappingsError>,
    k: int,
)
    requires
        setup.is_under_way(task, k),
        setup.has_filtered_channels(filtering, filtered, k),
        task.after_filtering_channels(
            setup.src_guild_id(),
            setup.dest_guild(),
            setup.channels(),
            setup.roles(),
            filtering,
            filtered,
            next,
            progress,
        ),
        progress matches Progress::Perform(action) ==> setup.actions[k] == Some(action),
    ensures
        setup.has_set_up(next, progress, k),
{
    if let Progress::Done(channels) = filtered {
        let (before, filtering, filtered) = choose|
            before: FilterBarRoles,
            filtering: FilterBarRoles,
            filtered: Progress<Vec<Role>, MappingsError>,
        |
            #![trigger before.step(Reply::Begin, filtering, filtered)]
            {
                &&& before.blacklists_sorted@ == task.blacklists_sorted@
                &&& before.stage == (FilterRolesStage::Begin { pending: setup.roles() })
                &&& before.step(Reply::Begin, filtering, filtered)
                &&& task.after_filtering_roles(
                    setup.src_guild_id(),
                    setup.dest_guild(),
                    setup.channels(),
                    channels,
                    filtering,
                    filtered,
                    next,
                    progress,
                )
            };
        let all = setup.roles()@;
        assert(Seq::empty() + all =~= all);
        assert forall|x: int| 0 <= x < setup.role_job().sources.len() implies all.contains(
            #[trigger] setup.role_job().sources[x],
        ) by {
            assert(all[x] == setup.role_job().sources[x]);
        }
        if let Progress::Perform(action) = filtered {
            assert(setup.actions[k] == Some(action));
        }
        filtering_roles_continues(
            setup,
            before.at(FilterRolesStage::Ended),
            all,
            Seq::empty(),
            filtering,
            filtered,
            k,
        );
        setting_up_filters_roles(setup, task, channels, filtering, filtered, next, progress, k);
    }
}

/// What follows from a step of forgetting what is kept out.
proof fn setting_up_forgets(
    setup: Setup,
    task: RegisterGuild,
    unregistering: UnregisterBlacklistedChannels,
    unregistered: Progress<(), MappingsError>,
    next: RegisterGuild,
    progress: Progress<(), MappingsError>,
    k: int,
)
    requires
        setup.is_under_way(task, k),
        setup.has_forgotten(unregistering, unregistered, k),
        task.after_unregistering(
            setup.src_guild_id(),
            setup.dest_guild(),
            setup.channels(),
            setup.roles(),
            unregistering,
            unregistered,
            next,
            progress,
        ),
        progress matches Progress::Perform(action) ==> setup.actions[k] == Some(action),
    ensures
        setup.has_set_up(next, progress, k),
{
    if unregistered is Done {
        let (before, filtering, filtered) = choose|
            before: FilterBarChannels,
            filtering: FilterBarChannels,
            filtered: Progress<Vec<Channel>, MappingsError>,
        |
            #![trigger before.step(Reply::Begin, filtering, filtered)]
            {
                &&& before.blacklists_sorted@ == task.blacklists_sorted@
                &&& before.stage is Begin
                &&& are_copies(before.stage->Begin_pending@, setup.channels()@)
                &&& before.step(Reply::Begin, filtering, filtered)
                &&& task.after_filtering_channels(
                    setup.src_guild_id(),
                    setup.dest_guild(),
                    setup.channels(),
                    setup.roles(),
                    filtering,
                    filtered,
                    next,
                    progress,
                )
            };
        let all = before.stage->Begin_pending@;
        let job = setup.channel_job();
        assert(Seq::empty() + all =~= all);
        assert forall|x: int| 0 <= x < job.sources.len() implies job.is_settled(
            #[trigger] job.sources[x],
            setup.actions,
        ) || super::creating::is_among(job.sources[x], all) by {
            assert(is_copy(all[x], setup.channels()@[x]));
        }
        assert forall|i: int| 0 <= i < all.len() implies setup.is_from(#[trigger] all[i]) by {
            assert(is_copy(all[i], setup.channels()@[i]));
        }
        if let Progress::Perform(action) = filtered {
            assert(setup.actions[k] == Some(action));
        }
        filtering_channels_continues(
            setup,
            before.at(FilterChannelsStage::Ended),
            all,
            Seq::empty(),
            filtering,
            filtered,
            k,
        );
        setting_up_filters_channels(setup, task, filtering, filtered, next, progress, k);
    }
}

/// One step of setting up a mirror.
proof fn setting_up_goes_on(
    setup: Setup,
    task: RegisterGuild,
    next: RegisterGuild,
    progress: Progress<(), MappingsError>,
    k: int,
)
    requires
        setup.is_waiting(task, k - 1),
        0 < k < setup.replies.len(),
        task.awaits() is Some,
        setup.replies[k].answers(task.awaits()->0),
        task.step(setup.replies[k], next, progress),
        progress matches Progress::Perform(action) ==> setup.actions[k] == Some(action),
    ensures
        setup.has_set_up(next, progress, k),
{
    let ended = task.at(GuildStage::Ended);
    let reply = setup.replies[k];
    match task.stage {
        GuildStage::RestingAgain { src_guild_id, dest_guild, src_channels, src_roles } => {
            if reply is Done && src_guild_id != dest_guild.id {
                let (before, unregistering, unregistered) = choose|
                    before: UnregisterBlacklistedChannels,
                    unregistering: UnregisterBlacklistedChannels,
                    unregistered: Progress<(), MappingsError>,
                |
                    #![trigger before.step(Reply::Begin, unregistering, unregistered)]
                    {
                        &&& before.stage is Begin
                        &&& before.stage->Begin_pending@ == ended.blacklists_sorted@
                        &&& before.step(Reply::Begin, unregistering, unregistered)
                        &&& ended.after_unregistering(
                            src_guild_id,
                            dest_guild,
                            src_channels,
                            src_roles,
                            unregistering,
                            unregistered,
                            next,
                            progress,
                        )
                    };
                let all = before.stage->Begin_pending@;
                assert forall|i: int| 0 <= i < all.len() implies setup.bars(#[trigger] all[i]) by {
                    assert(task.blacklists_sorted@.contains(all[i]));
                }
                forgetting_continues(setup, all, unregistering, unregistered, k);
                setting_up_forgets(setup, ended, unregistering, unregistered, next, progress, k);
            }
        },
        GuildStage::Unregistering { unregistering: before, .. } => {
            let (unregistering, unregistered) = choose|
                unregistering: UnregisterBlacklistedChannels,
                unregistered: Progress<(), MappingsError>,
            |
                #![trigger before.step(reply, unregistering, unregistered)]
                {
                    &&& before.step(reply, unregistering, unregistered)
                    &&& ended.after_unregistering(
                        setup.src_guild_id(),
                        setup.dest_guild(),
                        setup.channels(),
                        setup.roles(),
                        unregistering,
                        unregistered,
                        next,
                        progress,
                    )
                };
            forgetting_goes_on(setup, before, unregistering, unregistered, k);
            setting_up_forgets(setup, ended, unregistering, unregistered, next, progress, k);
        },
        GuildStage::FilteringChannels { filtering: before, .. } => {
            let (filtering, filtered) = choose|
                filtering: FilterBarChannels,
                filtered: Progress<Vec<Channel>, MappingsError>,
            |
                #![trigger before.step(reply, filtering, filtered)]
                {
                    &&& before.step(reply, filtering, filtered)
                    &&& ended.after_filtering_channels(
                        setup.src_guild_id(),
                        setup.dest_guild(),
                        setup.channels(),
                        setup.roles(),
                        filtering,
                        filtered,
                        next,
                        progress,
                    )
                };
            filtering_channels_goes_on(setup, before, filtering, filtered, k);
            setting_up_filters_channels(setup, ended, filtering, filtered, next, progress, k);
        },
        GuildStage::FilteringRoles { channels, filtering: before, .. } => {
            let (filtering, filtered) = choose|
                filtering: FilterBarRoles,
                filtered: Progress<Vec<Role>, MappingsError>,
            |
                #![trigger before.step(reply, filtering, filtered)]
                {
                    &&& before.step(reply, filtering, filtered)
                    &&& ended.after_filtering_roles(
                        setup.src_guild_id(),
                        setup.dest_guild(),
                        setup.channels(),
                        channels,
                        filtering,
                        filtered,
                        next,
                        progress,
                    )
                };
            filtering_roles_goes_on(setup, before, filtering, filtered, k);
            setting_up_filters_roles(
                setup,
                ended,
                channels,
                filtering,
                filtered,
                next,
                progress,
                k,
            );
        },
        GuildStage::Mirroring { roles, mirroring: before, .. } => {
            let (mirroring, mirrored) = choose|
                mirroring: MirrorChannels,
                mirrored: Progress<(), MirrorError>,
            |
                #![trigger before.step(reply, mirroring, mirrored)]
                {
                    &&& before.step(reply, mirroring, mirrored)
                    &&& ended.after_mirroring(
                        setup.src_guild_id(),
                        setup.dest_guild().id,
                        roles,
                        mirroring,
                        mirrored,
                        next,
                        progress,
                    )
                };
            mirroring_channels_goes_on(
                setup.channel_job(),
                before,
                setup.channels(),
                mirroring,
                mirrored,
                setup.actions,
                setup.replies,
                k,
            );
            setting_up_mirrors(setup, ended, roles, mirroring, mirrored, next, progress, k);
        },
        GuildStage::CreatingRoles { creating: before, .. } => {
            let (creating, created) = choose|
                creating: CreateRoles,
                created: Progress<RoleMap, MappingsError>,
            |
                #![trigger before.step(reply, creating, created)]
                {
                    &&& before.step(reply, creating, created)
                    &&& ended.after_creating(
                        setup.src_guild_id(),
                        setup.dest_guild().id,
                        creating,
                        created,
                        next,
                        progress,
                    )
                };
            roles::creating_goes_on(
                setup.role_job(),
                before,
                creating,
                created,
                setup.actions,
                setup.replies,
                k,
            );
            setting_up_creates(setup, ended, creating, created, next, progress, k);
        },
        GuildStage::RegisteringRoles { registering: before } => {
            let (registering, registered) = choose|
                registering: RegisterMappings,
                registered: Progress<(), MappingsError>,
            |
                #![trigger before.step(reply, registering, registered)]
                {
                    &&& before.step(reply, registering, registered)
                    &&& ended.after_registering(registering, registered, next, progress)
                };
            roles::recorded_stays_recorded(
                setup.role_job(),
                before.records@,
                setup.actions,
                setup.replies,
                k,
            );
            setting_up_registers(
                setup,
                ended,
                before,
                reply,
                registering,
                registered,
                next,
                progress,
                k,
            );
        },
        _ => {},
    }
}

/// What the setting up has come to after answer `k`.
proof fn set_up_to(
    tasks: Seq<RegisterGuild>,
    replies: Seq<Reply>,
    progress: Seq<Progress<(), MappingsError>>,
    settings: GuildSettings,
    k: int,
)
    requires
        is_run(tasks, replies, progress),
        tasks[0].is_for(settings),
        tasks[0].stage is Begin,
        0 <= k < replies.len(),
    ensures
        (Setup { settings, base: 0, actions: asked(progress), replies }).has_set_up(
            tasks[k + 1],
            progress[k],
            k,
        ),
    decreases k,
{
    let setup = Setup { settings, base: 0, actions: asked(progress), replies };
    let reply = replies[k];
    if k == 0 {
        entries_are_the_same(tasks[0], settings);
    } else {
        set_up_to(tasks, replies, progress, settings, k - 1);
        if !(progress[k - 1] is Perform) {
            runs_end(tasks, replies, progress, k - 1);
        }
        setting_up_goes_on(setup, tasks[k], tasks[k + 1], progress[k], k);
    }
}

/// While a mirror is set up, everything that is asked for is what the two guilds, as they were got,
/// call for: what is created is like something that the mirrored guild has and that is neither kept
/// out nor registered, and is created in the mirroring guild; what is registered leads from such a
/// thing to what was created for it; and only what is kept out is unregistered.
pub proof fn setting_up_is_faithful(
    tasks: Seq<RegisterGuild>,
    replies: Seq<Reply>,
    progress: Seq<Progress<(), MappingsError>>,
    settings: GuildSettings,
    k: int,
)
    requires
        is_run(tasks, replies, progress),
        tasks[0].is_for(settings),
        tasks[0].stage is Begin,
        0 <= k < replies.len(),
        progress[k] is Perform,
    ensures
        (Setup { settings, base: 0, actions: asked(progress), replies }).is_asked(
            progress[k]->Perform_0,
            k,
        ),
{
    set_up_to(tasks, replies, progress, settings, k);
}

/// Roles and channels are created in the guild that was got as the mirroring one, and in no other.
pub proof fn mirrors_are_created_in_the_mirroring_guild(
    tasks: Seq<RegisterGuild>,
    replies: Seq<Reply>,
    progress: Seq<Progress<(), MappingsError>>,
    settings: GuildSettings,
    k: int,
)
    requires
        is_run(tasks, replies, progress),
        tasks[0].is_for(settings),
        tasks[0].stage is Begin,
        0 <= k < replies.len(),
    ensures
        progress[k] matches Progress::Perform(Action::CreateRole { guild_id, .. }) ==> {
            &&& settings.clone_roles
            &&& progress[2].performs(Action::GetGuild(settings.dest_guild_id))
            &&& replies[3] is Guild
            &&& guild_id == replies[3]->Guild_0.id
        },
        progress[k] matches Progress::Perform(Action::CreateChannel(request)) ==> {
            &&& progress[2].performs(Action::GetGuild(settings.dest_guild_id))
            &&& replies[3] is Guild
            &&& request.guild_id == replies[3]->Guild_0.id
        },
{
    set_up_to(tasks, replies, progress, settings, k);
    if progress[k] is Perform {
        let setup = Setup { settings, base: 0, actions: asked(progress), replies };
        if setup.has_listed() {
            assert(setup.actions[2] is Some);
        }
    }
}

/// Once a mirror is set up, every channel of the mirrored guild, and every role where roles are
/// mirrored, is kept out, is registered, cannot be mirrored, or was created.
pub proof fn setting_up_is_complete(
    tasks: Seq<RegisterGuild>,
    replies: Seq<Reply>,
    progress: Seq<Progress<(), MappingsError>>,
    settings: GuildSettings,
)
    requires
        is_run(tasks, replies, progress),
        tasks[0].is_for(settings),
        tasks[0].stage is Begin,
        replies.len() > 0,
        progress.last() is Done,
    ensures
        (Setup { settings, base: 0, actions: asked(progress), replies }).is_complete(),
{
    set_up_to(tasks, replies, progress, settings, replies.len() - 1);
}

// ---------------------------------------------------------------------------
// All mirrors
// ---------------------------------------------------------------------------

/// Whether a mirror between two guilds is configured.
pub open spec fn is_configured(guilds: Seq<GuildSettings>, src: u64, dest: u64) -> bool {
    exists|i: int|
        0 <= i < guilds.len() && (#[trigger] guilds[i]).src_guild_id == src
            && guilds[i].dest_guild_id == dest
}

/// Whether a mapping was listed as one between two guilds for which no mirror is configured.
pub open spec fn is_leftover(
    mapping: IdMapping,
    guilds: Seq<GuildSettings>,
    actions: Seq<Option<Action>>,
    replies: Seq<Reply>,
) -> bool {
    exists|j: int, x: int|
        #![trigger replies[j]->Mappings_0@[x]]
        {
            &&& 0 < j < replies.len()
            &&& actions[j - 1] matches Some(Action::GetMappings { orig_guild_id, ref_guild_id })
                && !is_configured(guilds, orig_guild_id, ref_guild_id)
            &&& replies[j] is Mappings
            &&& 0 <= x < replies[j]->Mappings_0@.len()
            &&& replies[j]->Mappings_0@[x]@ == mapping@
        }
}

/// Whether an action cleans up: it finds out what is registered, and removes what is between guilds
/// for which no mirror is configured.
pub open spec fn cleans_up(
    action: Action,
    guilds: Seq<GuildSettings>,
    actions: Seq<Option<Action>>,
    replies: Seq<Reply>,
) -> bool {
    match action {
        Action::Connect => true,
        Action::GetRegisteredGuilds => true,
        Action::GetMappings { orig_guild_id, ref_guild_id } => !is_configured(
            guilds,
            orig_guild_id,
            ref_guild_id,
        ),
        Action::UnregisterMapping(mapping) => is_leftover(mapping, guilds, actions, replies),
        _ => false,
    }
}

/// Whether all of these mappings are left over.
pub open spec fn are_leftover(
    mappings: Seq<IdMapping>,
    guilds: Seq<GuildSettings>,
    actions: Seq<Option<Action>>,
    replies: Seq<Reply>,
) -> bool {
    forall|i: int|
        0 <= i < mappings.len() ==> is_leftover(#[trigger] mappings[i], guilds, actions, replies)
}

/// Whether a cleaning up waits for the answer after `k`.
pub open spec fn is_cleaning(
    task: CleanupUnusedMappings,
    guilds: Seq<GuildSettings>,
    actions: Seq<Option<Action>>,
    replies: Seq<Reply>,
    k: int,
) -> bool {
    &&& task.configured@ == configured_pairs(guilds)
    &&& match task.stage {
        CleanupStage::Listing => true,
        CleanupStage::Unregistering { pending: _, pair } => match pair.stage {
            ForgetStage::Listing => actions[k] matches Some(
                Action::GetMappings { orig_guild_id, ref_guild_id },
            ) && !is_configured(guilds, orig_guild_id, ref_guild_id),
            ForgetStage::Unregistering { pending } => are_leftover(
                pending@,
                guilds,
                actions,
                replies,
            ),
            _ => false,
        },
        _ => false,
    }
}

/// What a cleaning up has come to while some pairs are left.
proof fn cleaning_continues(
    task: CleanupUnusedMappings,
    guilds: Seq<GuildSettings>,
    pending: Seq<(u64, u64)>,
    next: CleanupUnusedMappings,
    progress: Progress<(), MappingsError>,
    actions: Seq<Option<Action>>,
    replies: Seq<Reply>,
    k: int,
)
    requires
        task.configured@ == configured_pairs(guilds),
        task.continues(pending, next, progress),
        progress matches Progress::Perform(action) ==> actions[k] == Some(action),
    ensures
        progress matches Progress::Perform(action) ==> {
            &&& is_cleaning(next, guilds, actions, replies, k)
            &&& cleans_up(action, guilds, actions, replies)
        },
{
    let configured = task.configured@;
    let left = unconfigured(pending, configured);
    configured_pairs_are_kept(pending, configured);
    if left.len() > 0 && is_configured(guilds, left[0].0, left[0].1) {
        let i = choose|i: int|
            0 <= i < guilds.len() && (#[trigger] guilds[i]).src_guild_id == left[0].0
                && guilds[i].dest_guild_id == left[0].1;
        assert(configured[i] == left[0]);
    }
}

/// One step of a cleaning up.
proof fn cleaning_goes_on(
    task: CleanupUnusedMappings,
    guilds: Seq<GuildSettings>,
    next: CleanupUnusedMappings,
    progress: Progress<(), MappingsError>,
    actions: Seq<Option<Action>>,
    replies: Seq<Reply>,
    k: int,
)
    requires
        is_cleaning(task, guilds, actions, replies, k - 1),
        0 < k < replies.len(),
        task.step(replies[k], next, progress),
        progress matches Progress::Perform(action) ==> actions[k] == Some(action),
    ensures
        progress matches Progress::Perform(action) ==> {
            &&& is_cleaning(next, guilds, actions, replies, k)
            &&& cleans_up(action, guilds, actions, replies)
        },
{
    let ended = task.at(CleanupStage::Ended);
    let reply = replies[k];
    match task.stage {
        CleanupStage::Listing => {
            if let Reply::GuildRows(rows) = reply {
                cleaning_continues(
                    ended,
                    guilds,
                    crate::actions::mapping::registered_guilds(rows@),
                    next,
                    progress,
                    actions,
                    replies,
                    k,
                );
            }
        },
        CleanupStage::Unregistering { pending, pair: before } => {
            let (pair, forgotten) = choose|
                pair: ForgetMappings,
                forgotten: Progress<(), MappingsError>,
            |
                #![trigger before.step(reply, pair, forgotten)]
                {
                    &&& before.step(reply, pair, forgotten)
                    &&& ended.after_pair(pending, pair, forgotten, next, progress)
                };
            let left = match (before.stage, reply) {
                (ForgetStage::Unregistering { pending }, _) => pending@,
                (_, Reply::Mappings(listed)) => listed@,
                _ => Seq::empty(),
            };
            assert forall|i: int| 0 <= i < left.len() implies is_leftover(
                #[trigger] left[i],
                guilds,
                actions,
                replies,
            ) by {
                if before.stage is Listing {
                    assert(replies[k]->Mappings_0@[i] == left[i]);
                }
            }
            if let Progress::Perform(Action::UnregisterMapping(mapping)) = forgotten {
                assert(is_leftover(left[0], guilds, actions, replies));
                let (j, x) = choose|j: int, x: int|
                    #![trigger replies[j]->Mappings_0@[x]]
                    {
                        &&& 0 < j < replies.len()
                        &&& actions[j - 1] matches Some(
                            Action::GetMappings { orig_guild_id, ref_guild_id },
                        ) && !is_configured(guilds, orig_guild_id, ref_guild_id)
                        &&& replies[j] is Mappings
                        &&& 0 <= x < replies[j]->Mappings_0@.len()
                        &&& replies[j]->Mappings_0@[x]@ == left[0]@
                    };
                assert(replies[j]->Mappings_0@[x]@ == mapping@);
                let rest = left.drop_first();
                assert forall|i: int| 0 <= i < rest.len() implies is_leftover(
                    #[trigger] rest[i],
                    guilds,
                    actions,
                    replies,
                ) by {
                    assert(rest[i] == left[i + 1]);
                }
            }
            if forgotten is Done {
                cleaning_continues(
                    ended,
                    guilds,
                    pending@,
                    next,
                    progress,
                    actions,
                    replies,
                    k,
                );
            }
        },
        _ => {},
    }
}

/// What is asked for while the mirrors are set up: to clean up, or what one of the mirrors calls for.
pub open spec fn is_called_for(
    action: Action,
    guilds: Seq<GuildSettings>,
    actions: Seq<Option<Action>>,
    replies: Seq<Reply>,
    k: int,
) -> bool {
    ||| cleans_up(action, guilds, actions, replies)
    ||| exists|at: int, base: int|
        {
            &&& 0 <= at < guilds.len()
            &&& 0 < base <= k
            &&& #[trigger] (Setup { settings: guilds[at], base, actions, replies }).is_asked(
                action,
                k,
            )
        }
}

/// Whether the first mirrors were set up.
pub open spec fn are_complete(
    guilds: Seq<GuildSettings>,
    done: int,
    actions: Seq<Option<Action>>,
    replies: Seq<Reply>,
) -> bool {
    forall|at: int|
        0 <= at < done ==> is_complete_somewhere(#[trigger] guilds[at], actions, replies)
}

/// Whether a mirror was set up.
pub open spec fn is_complete_somewhere(
    settings: GuildSettings,
    actions: Seq<Option<Action>>,
    replies: Seq<Reply>,
) -> bool {
    exists|base: int| #[trigger] (Setup { settings, base, actions, replies }).is_complete()
}

/// Whether the setting up of all mirrors waits for the answer after `k`.
pub open spec fn is_setting_up(
    task: RegisterGuildSettings,
    guilds: Vec<GuildSettings>,
    actions: Seq<Option<Action>>,
    replies: Seq<Reply>,
    k: int,
) -> bool {
    &&& task.guilds == guilds
    &&& match task.stage {
        SetupStage::Connecting => true,
        SetupStage::Cleaning(cleaning) => is_cleaning(cleaning, guilds@, actions, replies, k),
        SetupStage::Registering { at, guild } => {
            &&& at < guilds@.len()
            &&& are_complete(guilds@, at as int, actions, replies)
            &&& exists|base: int|
                {
                    &&& 0 < base
                    &&& #[trigger] (Setup {
                        settings: guilds@[at as int],
                        base,
                        actions,
                        replies,
                    }).is_waiting(guild, k)
                }
        },
        _ => false,
    }
}

/// What follows once the first mirrors were set up.
proof fn next_mirror_is_set_up(
    task: RegisterGuildSettings,
    done: int,
    next: RegisterGuildSettings,
    progress: Progress<(), MappingsError>,
    actions: Seq<Option<Action>>,
    replies: Seq<Reply>,
    k: int,
)
    requires
        0 <= done <= task.guilds@.len(),
        are_complete(task.guilds@, done, actions, replies),
        task.continues(done, next, progress),
        0 < k < replies.len(),
        replies.len() == actions.len(),
    ensures
        progress matches Progress::Perform(action) ==> is_setting_up(
            next,
            task.guilds,
            actions,
            replies,
            k,
        ) && is_called_for(action, task.guilds@, actions, replies, k),
        progress is Done ==> are_complete(
            task.guilds@,
            task.guilds@.len() as int,
            actions,
            replies,
        ),
{
    if let SetupStage::Registering { at, guild } = next.stage {
        if done < task.guilds@.len() {
            let settings = task.guilds@[done];
            let setup = Setup { settings, base: k, actions, replies };
            entries_are_the_same(guild, settings);
            assert(setup.is_waiting(guild, k));
        }
    }
}

/// A setting up keeps out what its settings do.
proof fn entries_are_the_same(task: RegisterGuild, settings: GuildSettings)
    requires
        task.is_for(settings),
    ensures
        same_entries(task.blacklists_sorted@, settings.blacklists@),
{
    broadcast use vstd::seq_lib::group_to_multiset_ensures;

    assert forall|entry: Blacklist| #[trigger]
        task.blacklists_sorted@.contains(entry) <==> settings.blacklists@.contains(entry) by {
        assert(task.blacklists_sorted@.to_multiset().contains(entry)
            <==> settings.blacklists@.to_multiset().contains(entry));
    }
}

/// What setting up all mirrors has come to after answer `k`.
proof fn all_set_up_to(
    tasks: Seq<RegisterGuildSettings>,
    replies: Seq<Reply>,
    progress: Seq<Progress<(), MappingsError>>,
    guilds: Vec<GuildSettings>,
    k: int,
)
    requires
        is_run(tasks, replies, progress),
        tasks[0] == (RegisterGuildSettings { guilds, stage: SetupStage::Begin }),
        0 <= k < replies.len(),
    ensures
        progress[k] matches Progress::Perform(action) ==> is_setting_up(
            tasks[k + 1],
            guilds,
            asked(progress),
            replies,
            k,
        ) && is_called_for(action, guilds@, asked(progress), replies, k),
        progress[k] is Done ==> are_complete(
            guilds@,
            guilds@.len() as int,
            asked(progress),
            replies,
        ),
    decreases k,
{
    let actions = asked(progress);
    let reply = replies[k];
    if k > 0 {
        all_set_up_to(tasks, replies, progress, guilds, k - 1);
        if !(progress[k - 1] is Perform) {
            runs_end(tasks, replies, progress, k - 1);
        }
        let task = tasks[k];
        let next = tasks[k + 1];
        let ended = task.at(SetupStage::Ended);
        match task.stage {
            SetupStage::Connecting => {
                if reply is Done {
                    let (before, cleaning, cleaned) = choose|
                        before: CleanupUnusedMappings,
                        cleaning: CleanupUnusedMappings,
                        cleaned: Progress<(), MappingsError>,
                    |
                        #![trigger before.step(Reply::Begin, cleaning, cleaned)]
                        {
                            &&& before.configured@ == configured_pairs(guilds@)
                            &&& before.stage == CleanupStage::Begin
                            &&& before.step(Reply::Begin, cleaning, cleaned)
                            &&& ended.after_cleaning(cleaning, cleaned, next, progress[k])
                        };
                    assert(cleaned is Perform);
                }
            },
            SetupStage::Cleaning(before) => {
                let (cleaning, cleaned) = choose|
                    cleaning: CleanupUnusedMappings,
                    cleaned: Progress<(), MappingsError>,
                |
                    #![trigger before.step(reply, cleaning, cleaned)]
                    {
                        &&& before.step(reply, cleaning, cleaned)
                        &&& ended.after_cleaning(cleaning, cleaned, next, progress[k])
                    };
                cleaning_goes_on(before, guilds@, cleaning, cleaned, actions, replies, k);
                if cleaned is Done {
                    next_mirror_is_set_up(ended, 0, next, progress[k], actions, replies, k);
                }
            },
            SetupStage::Registering { at, guild: before } => {
                let (guild, registered) = choose|
                    guild: RegisterGuild,
                    registered: Progress<(), MappingsError>,
                |
                    #![trigger before.step(reply, guild, registered)]
                    {
                        &&& before.step(reply, guild, registered)
                        &&& ended.after_guild(at, guild, registered, next, progress[k])
                    };
                let settings = guilds@[at as int];
                let base = choose|base: int|
                    {
                        &&& 0 < base
                        &&& #[trigger] (Setup { settings, base, actions, replies }).is_waiting(
                            before,
                            k - 1,
                        )
                    };
                let setup = Setup { settings, base, actions, replies };
                setting_up_goes_on(setup, before, guild, registered, k);
                if registered is Done {
                    assert forall|i: int| 0 <= i < at + 1 implies is_complete_somewhere(
                        #[trigger] guilds@[i],
                        actions,
                        replies,
                    ) by {
                        if i == at {
                            assert(setup.is_complete());
                        }
                    }
                    next_mirror_is_set_up(ended, at + 1, next, progress[k], actions, replies, k);
                }
            },
            _ => {},
        }
    }
}

/// While the mirrors are set up, everything that is asked for cleans up, or is what one of the
/// mirrors calls for.
pub proof fn setting_all_up_is_faithful(
    tasks: Seq<RegisterGuildSettings>,
    replies: Seq<Reply>,
    progress: Seq<Progress<(), MappingsError>>,
    guilds: Vec<GuildSettings>,
    k: int,
)
    requires
        is_run(tasks, replies, progress),
        tasks[0] == (RegisterGuildSettings { guilds, stage: SetupStage::Begin }),
        0 <= k < replies.len(),
        progress[k] is Perform,
    ensures
        is_called_for(progress[k]->Perform_0, guilds@, asked(progress), replies, k),
{
    all_set_up_to(tasks, replies, progress, guilds, k);
}

/// Once the mirrors are set up, each of them is.
pub proof fn setting_all_up_is_complete(
    tasks: Seq<RegisterGuildSettings>,
    replies: Seq<Reply>,
    progress: Seq<Progress<(), MappingsError>>,
    guilds: Vec<GuildSettings>,
)
    requires
        is_run(tasks, replies, progress),
        tasks[0] == (RegisterGuildSettings { guilds, stage: SetupStage::Begin }),
        replies.len() > 0,
        progress.last() is Done,
    ensures
        are_complete(guilds@, guilds@.len() as int, asked(progress), replies),
{
    all_set_up_to(tasks, replies, progress, guilds, replies.len() - 1);
}

} // verus!
