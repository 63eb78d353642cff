//! Setting up the mirrors that are configured.
use crate::blacklist::{copy_blacklists, is_sorted, sort_blacklists, Blacklist};
use crate::config::GuildSettings;
use crate::errors::{Failure, MappingsError};
use crate::model::{are_copies, copy_channels, Channel, Guild, Role};
use crate::operation::{Action, Progress, Reply, ReplyKind, Task};
use crate::util::cleanup::{
    cleanup_unused_mappings, configured_pairs, unregister_blacklisted_channels, BlacklistStage,
    CleanupStage, CleanupUnusedMappings, UnregisterBlacklistedChannels,
};
use crate::util::filter::{
    filter_bar_channels, filter_bar_roles, FilterBarChannels, FilterBarRoles,
    FilterChannelsStage, FilterRolesStage,
};
use crate::util::mirror::{
    failure_ends_mirroring, listing_fails_plainly, mirror_channels, MirrorChannels, MirrorError,
    MirrorStage,
};
use crate::util::register::{register_roles, RegisterMappings};
use crate::util::roles::{create_roles, CreateRoles, CreateRolesStage, RoleMap};
use vstd::prelude::*;

verus! {

// ---------------------------------------------------------------------------
// One mirror
// ---------------------------------------------------------------------------

/// How far the setting up has come.
pub enum GuildStage {
    Begin,
    Connecting,
    GettingSrc,
    GettingDest { src_guild_id: u64 },
    Resting { src_guild_id: u64, dest_guild: Guild },
    ListingChannels { src_guild_id: u64, dest_guild: Guild },
    ListingRoles { src_guild_id: u64, dest_guild: Guild, src_channels: Vec<Channel> },
    RestingAgain {
        src_guild_id: u64,
        dest_guild: Guild,
        src_channels: Vec<Channel>,
        src_roles: Vec<Role>,
    },
    Unregistering {
        src_guild_id: u64,
        dest_guild: Guild,
        src_channels: Vec<Channel>,
        src_roles: Vec<Role>,
        unregistering: UnregisterBlacklistedChannels,
    },
    FilteringChannels {
        src_guild_id: u64,
        dest_guild: Guild,
        src_channels: Vec<Channel>,
        src_roles: Vec<Role>,
        filtering: FilterBarChannels,
    },
    FilteringRoles {
        src_guild_id: u64,
        dest_guild: Guild,
        src_channels: Vec<Channel>,
        channels: Vec<Channel>,
        filtering: FilterBarRoles,
    },
    Mirroring {
        src_guild_id: u64,
        dest_guild_id: u64,
        roles: Vec<Role>,
        mirroring: MirrorChannels,
    },
    CreatingRoles { src_guild_id: u64, dest_guild_id: u64, creating: CreateRoles },
    RegisteringRoles { registering: RegisterMappings },
    Ended,
}

/// Sets up one mirror: forgets what is blacklisted, and mirrors and registers the channels
/// and the roles that are neither blacklisted nor registered yet. A guild is not mirrored
/// into itself.
pub struct RegisterGuild {
    pub src_guild_id: u64,
    pub dest_guild_id: u64,
    pub clone_roles: bool,
    pub blacklists_sorted: Vec<Blacklist>,
    pub stage: GuildStage,
}

/// Begins to set up one mirror.
pub fn register_guild(settings: &GuildSettings) -> (task: RegisterGuild)
    ensures
        task.wf(),
        task.is_for(*settings),
        task.stage is Begin,
{
    RegisterGuild {
        src_guild_id: settings.src_guild_id,
        dest_guild_id: settings.dest_guild_id,
        clone_roles: settings.clone_roles,
        blacklists_sorted: sort_blacklists(&settings.blacklists),
        stage: GuildStage::Begin,
    }
}

impl RegisterGuild {
    /// Whether this sets up the mirror with the given settings.
    pub open spec fn is_for(self, settings: GuildSettings) -> bool {
        &&& self.src_guild_id == settings.src_guild_id
        &&& self.dest_guild_id == settings.dest_guild_id
        &&& self.clone_roles == settings.clone_roles
        &&& is_sorted(self.blacklists_sorted@)
        &&& self.blacklists_sorted@.to_multiset() == settings.blacklists@.to_multiset()
    }

    /// The same setting up, at another stage.
    pub open spec fn at(self, stage: GuildStage) -> RegisterGuild {
        RegisterGuild { stage, ..self }
    }

    /// Whether the setting up ends here.
    pub open spec fn ends(self, next: Self, progress: Progress<(), MappingsError>) -> bool {
        next == self.at(GuildStage::Ended) && progress.yields(())
    }

    /// Whether the setting up fails here.
    pub open spec fn fails_with(
        self,
        error: MappingsError,
        next: Self,
        progress: Progress<(), MappingsError>,
    ) -> bool {
        next == self.at(GuildStage::Ended) && progress.fails(error)
    }

    /// What follows once both guilds were listed.
    pub open spec fn after_listing(
        self,
        src_guild_id: u64,
        dest_guild: Guild,
        src_channels: Vec<Channel>,
        src_roles: Vec<Role>,
        next: Self,
        progress: Progress<(), MappingsError>,
    ) -> bool {
        if src_guild_id == dest_guild.id {
            self.ends(next, progress)
        } else {
            exists|
                task: UnregisterBlacklistedChannels,
                unregistering: UnregisterBlacklistedChannels,
                unregistered,
            |
                #![trigger task.step(Reply::Begin, unregistering, unregistered)]
                {
                    &&& task.stage matches BlacklistStage::Begin { pending }
                    &&& pending@ == self.blacklists_sorted@
                    &&& task.step(Reply::Begin, unregistering, unregistered)
                    &&& self.after_unregistering(
                        src_guild_id,
                        dest_guild,
                        src_channels,
                        src_roles,
                        unregistering,
                        unregistered,
                        next,
                        progress,
                    )
                }
        }
    }

    /// What follows from a step of forgetting what is blacklisted.
    pub open spec fn after_unregistering(
        self,
        src_guild_id: u64,
        dest_guild: Guild,
        src_channels: Vec<Channel>,
        src_roles: Vec<Role>,
        unregistering: UnregisterBlacklistedChannels,
        unregistered: Progress<(), MappingsError>,
        next: Self,
        progress: Progress<(), MappingsError>,
    ) -> bool {
        match unregistered {
            Progress::Perform(action) => {
                &&& next == self.at(
                    GuildStage::Unregistering {
                        src_guild_id,
                        dest_guild,
                        src_channels,
                        src_roles,
                        unregistering,
                    },
                )
                &&& progress.performs(action)
            },
            Progress::Failed(error) => self.fails_with(error, next, progress),
            Progress::Done(()) => exists|
                task: FilterBarChannels,
                filtering: FilterBarChannels,
                filtered,
            |
                #![trigger task.step(Reply::Begin, filtering, filtered)]
                {
                    &&& task.blacklists_sorted@ == self.blacklists_sorted@
                    &&& task.stage matches FilterChannelsStage::Begin { pending }
                    &&& are_copies(pending@, src_channels@)
                    &&& task.step(Reply::Begin, filtering, filtered)
                    &&& self.after_filtering_channels(
                        src_guild_id,
                        dest_guild,
                        src_channels,
                        src_roles,
                        filtering,
                        filtered,
                        next,
                        progress,
                    )
                },
        }
    }

    /// What follows from a step of filtering the channels.
    pub open spec fn after_filtering_channels(
        self,
        src_guild_id: u64,
        dest_guild: Guild,
        src_channels: Vec<Channel>,
        src_roles: Vec<Role>,
        filtering: FilterBarChannels,
        filtered: Progress<Vec<Channel>, MappingsError>,
        next: Self,
        progress: Progress<(), MappingsError>,
    ) -> bool {
        match filtered {
            Progress::Perform(action) => {
                &&& next == self.at(
                    GuildStage::FilteringChannels {
                        src_guild_id,
                        dest_guild,
                        src_channels,
                        src_roles,
                        filtering,
                    },
                )
                &&& progress.performs(action)
            },
            Progress::Failed(error) => self.fails_with(error, next, progress),
            Progress::Done(channels) => exists|
                task: FilterBarRoles,
                filtering: FilterBarRoles,
                filtered,
            |
                #![trigger task.step(Reply::Begin, filtering, filtered)]
                {
                    &&& task.blacklists_sorted@ == self.blacklists_sorted@
                    &&& task.stage == (FilterRolesStage::Begin { pending: src_roles })
                    &&& task.step(Reply::Begin, filtering, filtered)
                    &&& self.after_filtering_roles(
                        src_guild_id,
                        dest_guild,
                        src_channels,
                        channels,
                        filtering,
                        filtered,
                        next,
                        progress,
                    )
                },
        }
    }

    /// What follows from a step of filtering the roles.
    pub open spec fn after_filtering_roles(
        self,
        src_guild_id: u64,
        dest_guild: Guild,
        src_channels: Vec<Channel>,
        channels: Vec<Channel>,
        filtering: FilterBarRoles,
        filtered: Progress<Vec<Role>, MappingsError>,
        next: Self,
        progress: Progress<(), MappingsError>,
    ) -> bool {
        match filtered {
            Progress::Perform(action) => {
                &&& next == self.at(
                    GuildStage::FilteringRoles {
                        src_guild_id,
                        dest_guild,
                        src_channels,
                        channels,
                        filtering,
                    },
                )
                &&& progress.performs(action)
            },
            Progress::Failed(error) => self.fails_with(error, next, progress),
            Progress::Done(roles) => if channels@.len() > 0 {
                exists|mirroring: MirrorChannels, mirrored|
                    #![trigger self.after_mirroring(src_guild_id, dest_guild.id, roles, mirroring, mirrored, next, progress)]
                    {
                        &&& (MirrorChannels {
                            src_guild_id,
                            dest_guild,
                            stage: MirrorStage::Begin { new_channels: channels, src_channels },
                        }).step(Reply::Begin, mirroring, mirrored)
                        &&& self.after_mirroring(
                            src_guild_id,
                            dest_guild.id,
                            roles,
                            mirroring,
                            mirrored,
                            next,
                            progress,
                        )
                    }
            } else {
                self.after_channels(src_guild_id, dest_guild.id, roles, next, progress)
            },
        }
    }

    /// What follows from a step of mirroring the channels.
    pub open spec fn after_mirroring(
        self,
        src_guild_id: u64,
        dest_guild_id: u64,
        roles: Vec<Role>,
        mirroring: MirrorChannels,
        mirrored: Progress<(), MirrorError>,
        next: Self,
        progress: Progress<(), MappingsError>,
    ) -> bool {
        match mirrored {
            Progress::Perform(action) => {
                &&& next == self.at(
                    GuildStage::Mirroring { src_guild_id, dest_guild_id, roles, mirroring },
                )
                &&& progress.performs(action)
            },
            Progress::Failed(MirrorError::Listing(failure)) => self.fails_with(
                MappingsError::of(failure),
                next,
                progress,
            ),
            Progress::Failed(MirrorError::Mapping(error)) => self.fails_with(error, next, progress),
            Progress::Done(()) => self.after_channels(
                src_guild_id,
                dest_guild_id,
                roles,
                next,
                progress,
            ),
        }
    }

    /// What follows once the channels are mirrored: the roles are, where there are any and
    /// roles are mirrored at all.
    pub open spec fn after_channels(
        self,
        src_guild_id: u64,
        dest_guild_id: u64,
        roles: Vec<Role>,
        next: Self,
        progress: Progress<(), MappingsError>,
    ) -> bool {
        if roles@.len() > 0 && self.clone_roles {
            exists|creating: CreateRoles, created|
                #![trigger self.after_creating(src_guild_id, dest_guild_id, creating, created, next, progress)]
                {
                    &&& (CreateRoles {
                        dest_guild_id,
                        stage: CreateRolesStage::Begin { pending: roles },
                    }).step(Reply::Begin, creating, created)
                    &&& self.after_creating(
                        src_guild_id,
                        dest_guild_id,
                        creating,
                        created,
                        next,
                        progress,
                    )
                }
        } else {
            self.ends(next, progress)
        }
    }

    /// What follows from a step of creating the roles.
    pub open spec fn after_creating(
        self,
        src_guild_id: u64,
        dest_guild_id: u64,
        creating: CreateRoles,
        created: Progress<RoleMap, MappingsError>,
        next: Self,
        progress: Progress<(), MappingsError>,
    ) -> bool {
        match created {
            Progress::Perform(action) => {
                &&& next == self.at(
                    GuildStage::CreatingRoles { src_guild_id, dest_guild_id, creating },
                )
                &&& progress.performs(action)
            },
            Progress::Failed(error) => self.fails_with(error, next, progress),
            Progress::Done(made) => exists|
                task: RegisterMappings,
                registering: RegisterMappings,
                registered,
            |
                #![trigger task.step(Reply::Begin, registering, registered)]
                {
                    &&& task.registers_roles(made@, (src_guild_id, dest_guild_id))
                    &&& task.step(Reply::Begin, registering, registered)
                    &&& self.after_registering(registering, registered, next, progress)
                },
        }
    }

    /// What follows from a step of registering the roles.
    pub open spec fn after_registering(
        self,
        registering: RegisterMappings,
        registered: Progress<(), MappingsError>,
        next: Self,
        progress: Progress<(), MappingsError>,
    ) -> bool {
        match registered {
            Progress::Perform(action) => {
                &&& next == self.at(GuildStage::RegisteringRoles { registering })
                &&& progress.performs(action)
            },
            Progress::Failed(error) => self.fails_with(error, next, progress),
            Progress::Done(()) => self.ends(next, progress),
        }
    }

    fn end(self) -> (res: (Self, Progress<(), MappingsError>))
        requires
            is_sorted(self.blacklists_sorted@),
        ensures
            self.ends(res.0, res.1),
            res.0.wf(),
            res.1.leaves(res.0.awaits()),
    {
        (RegisterGuild { stage: GuildStage::Ended, ..self }, Progress::Done(()))
    }

    fn fail(self, error: MappingsError) -> (res: (Self, Progress<(), MappingsError>))
        requires
            is_sorted(self.blacklists_sorted@),
        ensures
            self.fails_with(error, res.0, res.1),
            res.0.wf(),
            res.1.leaves(res.0.awaits()),
    {
        (RegisterGuild { stage: GuildStage::Ended, ..self }, Progress::Failed(error))
    }

    fn continue_registering(self, step: (RegisterMappings, Progress<(), MappingsError>)) -> (res: (
        Self,
        Progress<(), MappingsError>,
    ))
        requires
            is_sorted(self.blacklists_sorted@),
            step.0.wf(),
            step.1.leaves(step.0.awaits()),
        ensures
            self.after_registering(step.0, step.1, res.0, res.1),
            res.0.wf(),
            res.1.leaves(res.0.awaits()),
    {
        let (registering, registered) = step;
        match registered {
            Progress::Perform(action) => (
                RegisterGuild { stage: GuildStage::RegisteringRoles { registering }, ..self },
                Progress::Perform(action),
            ),
            Progress::Failed(error) => self.fail(error),
            Progress::Done(()) => self.end(),
        }
    }

    fn continue_creating(
        self,
        src_guild_id: u64,
        dest_guild_id: u64,
        step: (CreateRoles, Progress<RoleMap, MappingsError>),
    ) -> (res: (Self, Progress<(), MappingsError>))
        requires
            is_sorted(self.blacklists_sorted@),
            step.0.wf(),
            step.1.leaves(step.0.awaits()),
        ensures
            self.after_creating(src_guild_id, dest_guild_id, step.0, step.1, res.0, res.1),
            res.0.wf(),
            res.1.leaves(res.0.awaits()),
    {
        let (creating, created) = step;
        match created {
            Progress::Perform(action) => {
                let stage = GuildStage::CreatingRoles { src_guild_id, dest_guild_id, creating };
                (RegisterGuild { stage, ..self }, Progress::Perform(action))
            },
            Progress::Failed(error) => self.fail(error),
            Progress::Done(made) => {
                let task = register_roles(&made, (src_guild_id, dest_guild_id));
                let step = task.resume(Reply::Begin);
                self.continue_registering(step)
            },
        }
    }

    fn continue_channels(self, src_guild_id: u64, dest_guild_id: u64, roles: Vec<Role>) -> (res: (
        Self,
        Progress<(), MappingsError>,
    ))
        requires
            is_sorted(self.blacklists_sorted@),
        ensures
            self.after_channels(src_guild_id, dest_guild_id, roles, res.0, res.1),
            res.0.wf(),
            res.1.leaves(res.0.awaits()),
    {
        if roles.len() > 0 && self.clone_roles {
            let task = create_roles(roles, dest_guild_id);
            let step = task.resume(Reply::Begin);
            self.continue_creating(src_guild_id, dest_guild_id, step)
        } else {
            self.end()
        }
    }

    fn continue_mirroring(
        self,
        src_guild_id: u64,
        dest_guild_id: u64,
        roles: Vec<Role>,
        step: (MirrorChannels, Progress<(), MirrorError>),
    ) -> (res: (Self, Progress<(), MappingsError>))
        requires
            is_sorted(self.blacklists_sorted@),
            step.0.wf(),
            step.1.leaves(step.0.awaits()),
            step.1 matches Progress::Failed(MirrorError::Listing(failure))
                ==> failure.concerns_mappings(),
        ensures
            self.after_mirroring(
                src_guild_id,
                dest_guild_id,
                roles,
                step.0,
                step.1,
                res.0,
                res.1,
            ),
            res.0.wf(),
            res.1.leaves(res.0.awaits()),
    {
        let (mirroring, mirrored) = step;
        match mirrored {
            Progress::Perform(action) => {
                let stage = GuildStage::Mirroring {
                    src_guild_id,
                    dest_guild_id,
                    roles,
                    mirroring,
                };
                (RegisterGuild { stage, ..self }, Progress::Perform(action))
            },
            Progress::Failed(MirrorError::Listing(failure)) => self.fail(
                MappingsError::from_failure(failure),
            ),
            Progress::Failed(MirrorError::Mapping(error)) => self.fail(error),
            Progress::Done(()) => self.continue_channels(src_guild_id, dest_guild_id, roles),
        }
    }

    fn continue_filtering_roles(
        self,
        src_guild_id: u64,
        dest_guild: Guild,
        src_channels: Vec<Channel>,
        channels: Vec<Channel>,
        step: (FilterBarRoles, Progress<Vec<Role>, MappingsError>),
    ) -> (res: (Self, Progress<(), MappingsError>))
        requires
            is_sorted(self.blacklists_sorted@),
            step.0.wf(),
            step.1.leaves(step.0.awaits()),
        ensures
            self.after_filtering_roles(
                src_guild_id,
                dest_guild,
                src_channels,
                channels,
                step.0,
                step.1,
                res.0,
                res.1,
            ),
            res.0.wf(),
            res.1.leaves(res.0.awaits()),
    {
        let (filtering, filtered) = step;
        match filtered {
            Progress::Perform(action) => {
                let stage = GuildStage::FilteringRoles {
                    src_guild_id,
                    dest_guild,
                    src_channels,
                    channels,
                    filtering,
                };
                (RegisterGuild { stage, ..self }, Progress::Perform(action))
            },
            Progress::Failed(error) => self.fail(error),
            Progress::Done(roles) => {
                let dest_guild_id = dest_guild.id;
                if channels.len() > 0 {
                    // Threads are not listed when a mirror is set up, so there are none to
                    // join here.
                    let task = mirror_channels(src_guild_id, dest_guild, channels, src_channels);
                    let ghost begun = task;
                    let step = task.resume(Reply::Begin);
                    proof {
                        listing_fails_plainly(begun, Reply::Begin, step.0, step.1);
                    }
                    self.continue_mirroring(src_guild_id, dest_guild_id, roles, step)
                } else {
                    self.continue_channels(src_guild_id, dest_guild_id, roles)
                }
            },
        }
    }

    fn continue_filtering_channels(
        self,
        src_guild_id: u64,
        dest_guild: Guild,
        src_channels: Vec<Channel>,
        src_roles: Vec<Role>,
        step: (FilterBarChannels, Progress<Vec<Channel>, MappingsError>),
    ) -> (res: (Self, Progress<(), MappingsError>))
        requires
            is_sorted(self.blacklists_sorted@),
            step.0.wf(),
            step.1.leaves(step.0.awaits()),
        ensures
            self.after_filtering_channels(
                src_guild_id,
                dest_guild,
                src_channels,
                src_roles,
                step.0,
                step.1,
                res.0,
                res.1,
            ),
            res.0.wf(),
            res.1.leaves(res.0.awaits()),
    {
        let (filtering, filtered) = step;
        match filtered {
            Progress::Perform(action) => {
                let stage = GuildStage::FilteringChannels {
                    src_guild_id,
                    dest_guild,
                    src_channels,
                    src_roles,
                    filtering,
                };
                (RegisterGuild { stage, ..self }, Progress::Perform(action))
            },
            Progress::Failed(error) => self.fail(error),
            Progress::Done(channels) => {
                let blacklists = copy_blacklists(&self.blacklists_sorted);
                let task = filter_bar_roles(src_roles, blacklists);
                let step = task.resume(Reply::Begin);
                self.continue_filtering_roles(
                    src_guild_id,
                    dest_guild,
                    src_channels,
                    channels,
                    step,
                )
            },
        }
    }

    fn continue_unregistering(
        self,
        src_guild_id: u64,
        dest_guild: Guild,
        src_channels: Vec<Channel>,
        src_roles: Vec<Role>,
        step: (UnregisterBlacklistedChannels, Progress<(), MappingsError>),
    ) -> (res: (Self, Progress<(), MappingsError>))
        requires
            is_sorted(self.blacklists_sorted@),
            step.0.wf(),
            step.1.leaves(step.0.awaits()),
        ensures
            self.after_unregistering(
                src_guild_id,
                dest_guild,
                src_channels,
                src_roles,
                step.0,
                step.1,
                res.0,
                res.1,
            ),
            res.0.wf(),
            res.1.leaves(res.0.awaits()),
    {
        let (unregistering, unregistered) = step;
        match unregistered {
            Progress::Perform(action) => {
                let stage = GuildStage::Unregistering {
                    src_guild_id,
                    dest_guild,
                    src_channels,
                    src_roles,
                    unregistering,
                };
                (RegisterGuild { stage, ..self }, Progress::Perform(action))
            },
            Progress::Failed(error) => self.fail(error),
            Progress::Done(()) => {
                let blacklists = copy_blacklists(&self.blacklists_sorted);
                let task = filter_bar_channels(copy_channels(&src_channels), blacklists);
                let step = task.resume(Reply::Begin);
                self.continue_filtering_channels(
                    src_guild_id,
                    dest_guild,
                    src_channels,
                    src_roles,
                    step,
                )
            },
        }
    }

    fn continue_listing(
        self,
        src_guild_id: u64,
        dest_guild: Guild,
        src_channels: Vec<Channel>,
        src_roles: Vec<Role>,
    ) -> (res: (Self, Progress<(), MappingsError>))
        requires
            is_sorted(self.blacklists_sorted@),
        ensures
            self.after_listing(
                src_guild_id,
                dest_guild,
                src_channels,
                src_roles,
                res.0,
                res.1,
            ),
            res.0.wf(),
            res.1.leaves(res.0.awaits()),
    {
        if src_guild_id == dest_guild.id {
            self.end()
        } else {
            let blacklists = copy_blacklists(&self.blacklists_sorted);
            let task = unregister_blacklisted_channels(blacklists);
            let step = task.resume(Reply::Begin);
            self.continue_unregistering(src_guild_id, dest_guild, src_channels, src_roles, step)
        }
    }
}

impl Task for RegisterGuild {
    type Output = ();

    type Error = MappingsError;

    open spec fn wf(self) -> bool {
        &&& is_sorted(self.blacklists_sorted@)
        &&& match self.stage {
            GuildStage::Unregistering { unregistering, .. } => unregistering.wf(),
            GuildStage::FilteringChannels { filtering, .. } => filtering.wf(),
            GuildStage::FilteringRoles { filtering, .. } => filtering.wf(),
            GuildStage::Mirroring { mirroring, .. } => mirroring.wf(),
            GuildStage::CreatingRoles { creating, .. } => creating.wf(),
            GuildStage::RegisteringRoles { registering } => registering.wf(),
            _ => true,
        }
    }

    open spec fn awaits(self) -> Option<ReplyKind> {
        match self.stage {
            GuildStage::Begin => Some(ReplyKind::Begin),
            GuildStage::Connecting => Some(ReplyKind::Done),
            GuildStage::GettingSrc => Some(ReplyKind::Guild),
            GuildStage::GettingDest { .. } => Some(ReplyKind::Guild),
            GuildStage::Resting { .. } => Some(ReplyKind::Done),
            GuildStage::ListingChannels { .. } => Some(ReplyKind::Channels),
            GuildStage::ListingRoles { .. } => Some(ReplyKind::Roles),
            GuildStage::RestingAgain { .. } => Some(ReplyKind::Done),
            GuildStage::Unregistering { unregistering, .. } => unregistering.awaits(),
            GuildStage::FilteringChannels { filtering, .. } => filtering.awaits(),
            GuildStage::FilteringRoles { filtering, .. } => filtering.awaits(),
            GuildStage::Mirroring { mirroring, .. } => mirroring.awaits(),
            GuildStage::CreatingRoles { creating, .. } => creating.awaits(),
            GuildStage::RegisteringRoles { registering } => registering.awaits(),
            GuildStage::Ended => None,
        }
    }

    open spec fn step(
        self,
        reply: Reply,
        next: Self,
        progress: Progress<(), MappingsError>,
    ) -> bool {
        let ended = self.at(GuildStage::Ended);
        match (self.stage, reply) {
            (
                GuildStage::Unregistering {
                    src_guild_id,
                    dest_guild,
                    src_channels,
                    src_roles,
                    unregistering: task,
                },
                _,
            ) => exists|unregistering: UnregisterBlacklistedChannels, unregistered|
                #![trigger task.step(reply, unregistering, unregistered)]
                {
                    &&& task.step(reply, unregistering, unregistered)
                    &&& ended.after_unregistering(
                        src_guild_id,
                        dest_guild,
                        src_channels,
                        src_roles,
                        unregistering,
                        unregistered,
                        next,
                        progress,
                    )
                },
            (
                GuildStage::FilteringChannels {
                    src_guild_id,
                    dest_guild,
                    src_channels,
                    src_roles,
                    filtering: task,
                },
                _,
            ) => exists|filtering: FilterBarChannels, filtered|
                #![trigger task.step(reply, filtering, filtered)]
                {
                    &&& task.step(reply, filtering, filtered)
                    &&& ended.after_filtering_channels(
                        src_guild_id,
                        dest_guild,
                        src_channels,
                        src_roles,
                        filtering,
                        filtered,
                        next,
                        progress,
                    )
                },
            (
                GuildStage::FilteringRoles {
                    src_guild_id,
                    dest_guild,
                    src_channels,
                    channels,
                    filtering: task,
                },
                _,
            ) => exists|filtering: FilterBarRoles, filtered|
                #![trigger task.step(reply, filtering, filtered)]
                {
                    &&& task.step(reply, filtering, filtered)
                    &&& ended.after_filtering_roles(
                        src_guild_id,
                        dest_guild,
                        src_channels,
                        channels,
                        filtering,
                        filtered,
                        next,
                        progress,
                    )
                },
            (
                GuildStage::Mirroring { src_guild_id, dest_guild_id, roles, mirroring: task },
                _,
            ) => exists|mirroring: MirrorChannels, mirrored|
                #![trigger task.step(reply, mirroring, mirrored)]
                {
                    &&& task.step(reply, mirroring, mirrored)
                    &&& ended.after_mirroring(
                        src_guild_id,
                        dest_guild_id,
                        roles,
                        mirroring,
                        mirrored,
                        next,
                        progress,
                    )
                },
            (
                GuildStage::CreatingRoles { src_guild_id, dest_guild_id, creating: task },
                _,
            ) => exists|creating: CreateRoles, created|
                #![trigger task.step(reply, creating, created)]
                {
                    &&& task.step(reply, creating, created)
                    &&& ended.after_creating(
                        src_guild_id,
                        dest_guild_id,
                        creating,
                        created,
                        next,
                        progress,
                    )
                },
            (GuildStage::RegisteringRoles { registering: task }, _) => exists|
                registering: RegisterMappings,
                registered,
            |
                #![trigger task.step(reply, registering, registered)]
                {
                    &&& task.step(reply, registering, registered)
                    &&& ended.after_registering(registering, registered, next, progress)
                },
            (_, Reply::Failed(failure)) => ended.fails_with(
                MappingsError::of(failure),
                next,
                progress,
            ),
            (GuildStage::Begin, Reply::Begin) => next == self.at(GuildStage::Connecting)
                && progress.performs(Action::Connect),
            (GuildStage::Connecting, Reply::Done) => {
                &&& next == self.at(GuildStage::GettingSrc)
                &&& progress.performs(Action::GetGuild(self.src_guild_id))
            },
            (GuildStage::GettingSrc, Reply::Guild(src_guild)) => {
                &&& next == self.at(GuildStage::GettingDest { src_guild_id: src_guild.id })
                &&& progress.performs(Action::GetGuild(self.dest_guild_id))
            },
            (GuildStage::GettingDest { src_guild_id }, Reply::Guild(dest_guild)) => {
                &&& next == self.at(GuildStage::Resting { src_guild_id, dest_guild })
                &&& progress.performs(Action::Sleep(2))
            },
            (GuildStage::Resting { src_guild_id, dest_guild }, Reply::Done) => {
                &&& next == self.at(GuildStage::ListingChannels { src_guild_id, dest_guild })
                &&& progress.performs(Action::GetGuildChannels(src_guild_id))
            },
            (
                GuildStage::ListingChannels { src_guild_id, dest_guild },
                Reply::Channels(src_channels),
            ) => {
                &&& next == self.at(
                    GuildStage::ListingRoles { src_guild_id, dest_guild, src_channels },
                )
                &&& progress.performs(Action::GetRoles(src_guild_id))
            },
            (
                GuildStage::ListingRoles { src_guild_id, dest_guild, src_channels },
                Reply::Roles(src_roles),
            ) => {
                &&& next == self.at(
                    GuildStage::RestingAgain { src_guild_id, dest_guild, src_channels, src_roles },
                )
                &&& progress.performs(Action::Sleep(2))
            },
            (
                GuildStage::RestingAgain { src_guild_id, dest_guild, src_channels, src_roles },
                Reply::Done,
            ) => ended.after_listing(
                src_guild_id,
                dest_guild,
                src_channels,
                src_roles,
                next,
                progress,
            ),
            _ => false,
        }
    }

    fn resume(self, reply: Reply) -> (res: (Self, Progress<(), MappingsError>)) {
        assert(self.wf());
        let RegisterGuild {
            src_guild_id: configured_src,
            dest_guild_id: configured_dest,
            clone_roles,
            blacklists_sorted,
            stage,
        } = self;
        let ended = RegisterGuild {
            src_guild_id: configured_src,
            dest_guild_id: configured_dest,
            clone_roles,
            blacklists_sorted,
            stage: GuildStage::Ended,
        };
        match (stage, reply) {
            (
                GuildStage::Unregistering {
                    src_guild_id,
                    dest_guild,
                    src_channels,
                    src_roles,
                    unregistering,
                },
                reply,
            ) => {
                let step = unregistering.resume(reply);
                ended.continue_unregistering(
                    src_guild_id,
                    dest_guild,
                    src_channels,
                    src_roles,
                    step,
                )
            },
            (
                GuildStage::FilteringChannels {
                    src_guild_id,
                    dest_guild,
                    src_channels,
                    src_roles,
                    filtering,
                },
                reply,
            ) => {
                let step = filtering.resume(reply);
                ended.continue_filtering_channels(
                    src_guild_id,
                    dest_guild,
                    src_channels,
                    src_roles,
                    step,
                )
            },
            (
                GuildStage::FilteringRoles {
                    src_guild_id,
                    dest_guild,
                    src_channels,
                    channels,
                    filtering,
                },
                reply,
            ) => {
                let step = filtering.resume(reply);
                ended.continue_filtering_roles(
                    src_guild_id,
                    dest_guild,
                    src_channels,
                    channels,
                    step,
                )
            },
            (
                GuildStage::Mirroring { src_guild_id, dest_guild_id, roles, mirroring },
                reply,
            ) => {
                let ghost before = mirroring;
                let step = mirroring.resume(reply);
                proof {
                    listing_fails_plainly(before, reply, step.0, step.1);
                }
                ended.continue_mirroring(src_guild_id, dest_guild_id, roles, step)
            },
            (GuildStage::CreatingRoles { src_guild_id, dest_guild_id, creating }, reply) => {
                let step = creating.resume(reply);
                ended.continue_creating(src_guild_id, dest_guild_id, step)
            },
            (GuildStage::RegisteringRoles { registering }, reply) => {
                let step = registering.resume(reply);
                ended.continue_registering(step)
            },
            (_, Reply::Failed(failure)) => ended.fail(MappingsError::from_failure(failure)),
            (GuildStage::Begin, Reply::Begin) => (
                RegisterGuild { stage: GuildStage::Connecting, ..ended },
                Progress::Perform(Action::Connect),
            ),
            (GuildStage::Connecting, Reply::Done) => (
                RegisterGuild { stage: GuildStage::GettingSrc, ..ended },
                Progress::Perform(Action::GetGuild(configured_src)),
            ),
            (GuildStage::GettingSrc, Reply::Guild(src_guild)) => {
                let stage = GuildStage::GettingDest { src_guild_id: src_guild.id };
                (
                    RegisterGuild { stage, ..ended },
                    Progress::Perform(Action::GetGuild(configured_dest)),
                )
            },
            (GuildStage::GettingDest { src_guild_id }, Reply::Guild(dest_guild)) => {
                let stage = GuildStage::Resting { src_guild_id, dest_guild };
                (RegisterGuild { stage, ..ended }, Progress::Perform(Action::Sleep(2)))
            },
            (GuildStage::Resting { src_guild_id, dest_guild }, Reply::Done) => {
                let stage = GuildStage::ListingChannels { src_guild_id, dest_guild };
                (
                    RegisterGuild { stage, ..ended },
                    Progress::Perform(Action::GetGuildChannels(src_guild_id)),
                )
            },
            (
                GuildStage::ListingChannels { src_guild_id, dest_guild },
                Reply::Channels(src_channels),
            ) => {
                let stage = GuildStage::ListingRoles { src_guild_id, dest_guild, src_channels };
                (
                    RegisterGuild { stage, ..ended },
                    Progress::Perform(Action::GetRoles(src_guild_id)),
                )
            },
            (
                GuildStage::ListingRoles { src_guild_id, dest_guild, src_channels },
                Reply::Roles(src_roles),
            ) => {
                let stage = GuildStage::RestingAgain {
                    src_guild_id,
                    dest_guild,
                    src_channels,
                    src_roles,
                };
                (RegisterGuild { stage, ..ended }, Progress::Perform(Action::Sleep(2)))
            },
            (
                GuildStage::RestingAgain { src_guild_id, dest_guild, src_channels, src_roles },
                Reply::Done,
            ) => ended.continue_listing(src_guild_id, dest_guild, src_channels, src_roles),
            _ => vstd::pervasive::unreached(),
        }
    }
}

// ---------------------------------------------------------------------------
// All mirrors
// ---------------------------------------------------------------------------

/// How far the setting up has come.
pub enum SetupStage {
    Begin,
    Connecting,
    Cleaning(CleanupUnusedMappings),
    Registering { at: usize, guild: RegisterGuild },
    Ended,
}

/// Forgets what is no longer configured, and sets up every mirror that is, one after the
/// other, up to the first for which that fails.
pub struct RegisterGuildSettings {
    pub guilds: Vec<GuildSettings>,
    pub stage: SetupStage,
}

/// Begins to set up every mirror that is configured.
pub fn register_guild_settings(guilds: Vec<GuildSettings>) -> (task: RegisterGuildSettings)
    ensures
        task.wf(),
        task == (RegisterGuildSettings { guilds, stage: SetupStage::Begin }),
{
    RegisterGuildSettings { guilds, stage: SetupStage::Begin }
}

impl RegisterGuildSettings {
    /// The same setting up, at another stage.
    pub open spec fn at(self, stage: SetupStage) -> RegisterGuildSettings {
        RegisterGuildSettings { stage, ..self }
    }

    /// What follows once the first `done` mirrors were set up.
    pub open spec fn continues(
        self,
        done: int,
        next: Self,
        progress: Progress<(), MappingsError>,
    ) -> bool {
        if done < self.guilds@.len() {
            &&& next.guilds == self.guilds
            &&& next.stage matches SetupStage::Registering { at, guild }
            &&& at == done
            &&& guild.is_for(self.guilds@[done])
            &&& guild.stage is Connecting
            &&& progress.performs(Action::Connect)
        } else {
            next == self.at(SetupStage::Ended) && progress.yields(())
        }
    }

    /// What follows from a step of forgetting what is no longer configured.
    pub open spec fn after_cleaning(
        self,
        cleaning: CleanupUnusedMappings,
        cleaned: Progress<(), MappingsError>,
        next: Self,
        progress: Progress<(), MappingsError>,
    ) -> bool {
        match cleaned {
            Progress::Perform(action) => {
                &&& next == self.at(SetupStage::Cleaning(cleaning))
                &&& progress.performs(action)
            },
            Progress::Failed(error) => next == self.at(SetupStage::Ended) && progress.fails(error),
            Progress::Done(()) => self.continues(0, next, progress),
        }
    }

    /// What follows from a step of setting up one mirror.
    pub open spec fn after_guild(
        self,
        at: usize,
        guild: RegisterGuild,
        registered: Progress<(), MappingsError>,
        next: Self,
        progress: Progress<(), MappingsError>,
    ) -> bool {
        match registered {
            Progress::Perform(action) => {
                &&& next == self.at(SetupStage::Registering { at, guild })
                &&& progress.performs(action)
            },
            Progress::Failed(error) => next == self.at(SetupStage::Ended) && progress.fails(error),
            Progress::Done(()) => self.continues(at + 1, next, progress),
        }
    }

    fn proceed(self, done: usize) -> (res: (Self, Progress<(), MappingsError>))
        ensures
            self.continues(done as int, res.0, res.1),
            res.0.wf(),
            res.1.leaves(res.0.awaits()),
    {
        if done < self.guilds.len() {
            let (guild, progress) = register_guild(&self.guilds[done]).resume(Reply::Begin);
            let stage = SetupStage::Registering { at: done, guild };
            (RegisterGuildSettings { stage, ..self }, progress)
        } else {
            (RegisterGuildSettings { stage: SetupStage::Ended, ..self }, Progress::Done(()))
        }
    }

    fn continue_cleaning(self, step: (CleanupUnusedMappings, Progress<(), MappingsError>)) -> (res:
        (Self, Progress<(), MappingsError>))
        requires
            step.0.wf(),
            step.1.leaves(step.0.awaits()),
        ensures
            self.after_cleaning(step.0, step.1, res.0, res.1),
            res.0.wf(),
            res.1.leaves(res.0.awaits()),
    {
        let (cleaning, cleaned) = step;
        match cleaned {
            Progress::Perform(action) => (
                RegisterGuildSettings { stage: SetupStage::Cleaning(cleaning), ..self },
                Progress::Perform(action),
            ),
            Progress::Failed(error) => (
                RegisterGuildSettings { stage: SetupStage::Ended, ..self },
                Progress::Failed(error),
            ),
            Progress::Done(()) => self.proceed(0),
        }
    }
}

impl Task for RegisterGuildSettings {
    type Output = ();

    type Error = MappingsError;

    open spec fn wf(self) -> bool {
        match self.stage {
            SetupStage::Cleaning(cleaning) => cleaning.wf(),
            SetupStage::Registering { at, guild } => at < self.guilds@.len() && guild.wf(),
            _ => true,
        }
    }

    open spec fn awaits(self) -> Option<ReplyKind> {
        match self.stage {
            SetupStage::Begin => Some(ReplyKind::Begin),
            SetupStage::Connecting => Some(ReplyKind::Done),
            SetupStage::Cleaning(cleaning) => cleaning.awaits(),
            SetupStage::Registering { guild, .. } => guild.awaits(),
            SetupStage::Ended => None,
        }
    }

    open spec fn step(
        self,
        reply: Reply,
        next: Self,
        progress: Progress<(), MappingsError>,
    ) -> bool {
        let ended = self.at(SetupStage::Ended);
        match (self.stage, reply) {
            (SetupStage::Cleaning(task), _) => exists|cleaning: CleanupUnusedMappings, cleaned|
                #![trigger task.step(reply, cleaning, cleaned)]
                {
                    &&& task.step(reply, cleaning, cleaned)
                    &&& ended.after_cleaning(cleaning, cleaned, next, progress)
                },
            (SetupStage::Registering { at, guild: task }, _) => exists|
                guild: RegisterGuild,
                registered,
            |
                #![trigger task.step(reply, guild, registered)]
                {
                    &&& task.step(reply, guild, registered)
                    &&& ended.after_guild(at, guild, registered, next, progress)
                },
            (_, Reply::Failed(failure)) => next == ended && progress.fails(
                MappingsError::of(failure),
            ),
            (SetupStage::Begin, Reply::Begin) => next == self.at(SetupStage::Connecting)
                && progress.performs(Action::Connect),
            (SetupStage::Connecting, Reply::Done) => exists|
                task: CleanupUnusedMappings,
                cleaning: CleanupUnusedMappings,
                cleaned,
            |
                #![trigger task.step(Reply::Begin, cleaning, cleaned)]
                {
                    &&& task.configured@ == configured_pairs(self.guilds@)
                    &&& task.stage == CleanupStage::Begin
                    &&& task.step(Reply::Begin, cleaning, cleaned)
                    &&& ended.after_cleaning(cleaning, cleaned, next, progress)
                },
            _ => false,
        }
    }

    fn resume(self, reply: Reply) -> (res: (Self, Progress<(), MappingsError>)) {
        assert(self.wf());
        let RegisterGuildSettings { guilds, stage } = self;
        let ended = RegisterGuildSettings { guilds, stage: SetupStage::Ended };
        match (stage, reply) {
            (SetupStage::Cleaning(cleaning), reply) => {
                let step = cleaning.resume(reply);
                ended.continue_cleaning(step)
            },
            (SetupStage::Registering { at, guild }, reply) => {
                let (guild, registered) = guild.resume(reply);
                match registered {
                    Progress::Perform(action) => {
                        let stage = SetupStage::Registering { at, guild };
                        (RegisterGuildSettings { stage, ..ended }, Progress::Perform(action))
                    },
                    Progress::Failed(error) => (ended, Progress::Failed(error)),
                    Progress::Done(()) => {
                        assert(at < ended.guilds.len());
                        ended.proceed(at + 1)
                    },
                }
            },
            (_, Reply::Failed(failure)) => (
                ended,
                Progress::Failed(MappingsError::from_failure(failure)),
            ),
            (SetupStage::Begin, Reply::Begin) => (
                RegisterGuildSettings { stage: SetupStage::Connecting, ..ended },
                Progress::Perform(Action::Connect),
            ),
            (SetupStage::Connecting, Reply::Done) => {
                let task = cleanup_unused_mappings(&ended.guilds);
                let step = task.resume(Reply::Begin);
                ended.continue_cleaning(step)
            },
            _ => vstd::pervasive::unreached(),
        }
    }
}

/// A guild is not mirrored into itself: once both turn out to be the same, nothing more is
/// done.
pub proof fn guild_is_not_mirrored_into_itself(
    task: RegisterGuild,
    next: RegisterGuild,
    progress: Progress<(), MappingsError>,
)
    requires
        task.stage matches GuildStage::RestingAgain { src_guild_id, dest_guild, .. }
            && src_guild_id == dest_guild.id,
        task.step(Reply::Done, next, progress),
    ensures
        progress.yields(()),
        next.awaits() is None,
{
}

/// Whether the setting up of one mirror goes on after a failure: a lookup in the table may fail
/// while channels and roles are filtered, and while channels are put in their place.
pub open spec fn tolerates(task: RegisterGuild, failure: Failure) -> bool {
    &&& failure is Database
    &&& match task.stage {
        GuildStage::FilteringChannels { .. } => true,
        GuildStage::FilteringRoles { .. } => true,
        GuildStage::Mirroring { mirroring, .. } => mirroring.awaits() == Some(ReplyKind::Mapping),
        _ => false,
    }
}

/// After a failure that is not tolerated, setting up ends and tells that failure: the mirrors
/// that come after are not set up.
pub proof fn failure_ends_setup(
    task: RegisterGuildSettings,
    failure: Failure,
    next: RegisterGuildSettings,
    progress: Progress<(), MappingsError>,
)
    requires
        task.awaits() is Some,
        Reply::Failed(failure).answers(task.awaits()->0),
        task.stage matches SetupStage::Registering { guild, .. } ==> !tolerates(guild, failure),
        task.step(Reply::Failed(failure), next, progress),
    ensures
        progress.fails(MappingsError::of(failure)),
        next.awaits() is None,
{
    let reply = Reply::Failed(failure);
    let ended = task.at(SetupStage::Ended);
    if let SetupStage::Registering { at, guild: child } = task.stage {
        let (guild, registered) = choose|guild: RegisterGuild, registered|
            #![trigger child.step(reply, guild, registered)]
            child.step(reply, guild, registered) && ended.after_guild(
                at,
                guild,
                registered,
                next,
                progress,
            );
        failure_ends_guild(child, failure, guild, registered);
    }
}

/// After such a failure the setting up of one mirror ends and tells that failure.
proof fn failure_ends_guild(
    task: RegisterGuild,
    failure: Failure,
    next: RegisterGuild,
    progress: Progress<(), MappingsError>,
)
    requires
        task.awaits() is Some,
        Reply::Failed(failure).answers(task.awaits()->0),
        !tolerates(task, failure),
        task.step(Reply::Failed(failure), next, progress),
    ensures
        progress.fails(MappingsError::of(failure)),
{
    let reply = Reply::Failed(failure);
    let ended = task.at(GuildStage::Ended);
    if let GuildStage::Mirroring { src_guild_id, dest_guild_id, roles, mirroring: child } =
        task.stage {
        let (mirroring, mirrored) = choose|mirroring: MirrorChannels, mirrored|
            #![trigger child.step(reply, mirroring, mirrored)]
            child.step(reply, mirroring, mirrored) && ended.after_mirroring(
                src_guild_id,
                dest_guild_id,
                roles,
                mirroring,
                mirrored,
                next,
                progress,
            );
        failure_ends_mirroring(child, failure, mirroring, mirrored);
    }
}

} // verus!
