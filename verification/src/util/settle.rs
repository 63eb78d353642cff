//! Setting up a mirror for the first time.
use crate::blacklist::Blacklist;
use crate::errors::MappingsError;
use crate::model::{are_copies, is_copy, Channel, Guild, MappingView, Role};
use crate::operation::{Action, Progress, Reply, Task};
use crate::table::{has_unique_origins, leads_from, serves, Table};
use crate::util::channel_map::is_listed;
use crate::util::cleanup::{
    is_barred, is_unused, unregistering_continues, unregistering_goes_on, BlacklistStage,
    UnregisterBlacklistedChannels,
};
use crate::util::create::{
    creatable_channels, creating_channels_continues, CreateChannels, CreateStage,
};
use crate::util::filter::{
    filtering_channels_begins, filtering_channels_goes_on, filtering_roles_begins,
    filtering_roles_goes_on, is_new_channel, is_new_role, new_channels, new_roles,
    FilterBarChannels, FilterBarRoles, FilterChannelsStage, FilterRolesStage,
};
use crate::util::mirror::{MirrorChannels, MirrorError, MirrorStage};
use crate::util::register::{
    are_mappings, filled, registering_continues, registering_goes_on, RegisterMappings,
};
use crate::util::roles::{
    creatable_roles, creating_roles_continues, creating_roles_goes_on, is_everyone,
    role_mirrors_made, role_mirrors_made_lead_from, CreateRoles, CreateRolesStage, RoleMap,
};
use crate::util::scene::{
    after_creating_channels, clean_row, filled_registers, filling_grows, grows, mirroring_goes_on,
    records_thing, settled_channels_stay, Scene,
};
use crate::util::setup::{GuildStage, RegisterGuild};
use vstd::prelude::*;

verus! {

impl Scene {
    /// Whether an answer of the service shows what is there.
    pub open spec fn shows(self, action: Action, reply: Reply) -> bool {
        match (action, reply) {
            (Action::GetGuild(id), Reply::Guild(guild)) => guild.id == id && (id
                == self.dest_guild_id ==> guild.community() == self.community),
            (Action::GetGuildChannels(id), Reply::Channels(channels)) => id == self.src_guild_id
                ==> are_copies(channels@, self.channels),
            (Action::GetRoles(id), Reply::Roles(roles)) => id == self.src_guild_id ==> roles@
                == self.roles,
            _ => true,
        }
    }

    /// Whether this is the guild that mirrors.
    pub open spec fn is_dest(self, guild: Guild) -> bool {
        guild.id == self.dest_guild_id && guild.community() == self.community
    }

    /// Whether this is the setting up of the mirror.
    pub open spec fn is_of(self, task: RegisterGuild) -> bool {
        &&& task.src_guild_id == self.src_guild_id
        &&& task.dest_guild_id == self.dest_guild_id
        &&& task.clone_roles == self.clone_roles
        &&& task.blacklists_sorted@ == self.blacklists
        &&& self.src_guild_id != self.dest_guild_id
        &&& self.keeps_roles_apart()
    }

    /// Whether a setting up is finding out what is there.
    pub open spec fn is_looking(self, task: RegisterGuild, asked: Action) -> bool {
        match task.stage {
            GuildStage::Connecting => asked is Connect,
            GuildStage::GettingSrc => asked == Action::GetGuild(self.src_guild_id),
            GuildStage::GettingDest { src_guild_id } => src_guild_id == self.src_guild_id && asked
                == Action::GetGuild(self.dest_guild_id),
            GuildStage::Resting { src_guild_id, dest_guild } => src_guild_id == self.src_guild_id
                && self.is_dest(dest_guild) && asked is Sleep,
            GuildStage::ListingChannels { src_guild_id, dest_guild } => src_guild_id
                == self.src_guild_id && self.is_dest(dest_guild) && asked
                == Action::GetGuildChannels(self.src_guild_id),
            GuildStage::ListingRoles { src_guild_id, dest_guild, src_channels } => src_guild_id
                == self.src_guild_id && self.is_dest(dest_guild) && are_copies(
                src_channels@,
                self.channels,
            ) && asked == Action::GetRoles(self.src_guild_id),
            GuildStage::RestingAgain {
                src_guild_id,
                dest_guild,
                src_channels,
                src_roles,
            } => src_guild_id == self.src_guild_id && self.is_dest(dest_guild) && are_copies(
                src_channels@,
                self.channels,
            ) && src_roles@ == self.roles && asked is Sleep,
            _ => false,
        }
    }

    /// Whether every role is settled, or is among some that are new.
    pub open spec fn covers_roles(self, table: Table, new_roles: Seq<Role>) -> bool {
        &&& forall|i: int|
            0 <= i < self.roles.len() ==> self.settles_role(table, #[trigger] self.roles[i])
                || new_roles.contains(self.roles[i])
        &&& forall|n: int|
            0 <= n < new_roles.len() ==> self.roles.contains(#[trigger] new_roles[n])
                && !self.blacklists.contains(Blacklist::Role(new_roles[n].id))
    }

    /// Whether some roles are being registered, and with them all that are new.
    pub open spec fn registers_roles(
        self,
        registering: RegisterMappings,
        asked: Action,
        table: Table,
    ) -> bool {
        exists|base: Table|
            {
                &&& #[trigger] registering.has_come_to(asked, base, table)
                &&& self.is_clean(base)
                &&& self.settles_channels(base)
                &&& self.are_clean_records(registering.records@)
                &&& self.records_roles(base, registering.records@)
            }
    }

    /// Whether some channels that are not registered are to be mirrored.
    pub open spec fn are_new_channels(
        self,
        table: Table,
        src_channels: Seq<Channel>,
        channels: Seq<Channel>,
    ) -> bool {
        exists|copies: Seq<Channel>|
            {
                &&& #[trigger] are_copies(copies, src_channels)
                &&& channels == new_channels(self.blacklists, table, copies)
            }
    }

    /// Whether a setting up waits for the answer to an operation, on the way to having the
    /// mirror set up.
    pub open spec fn sets_up(self, task: RegisterGuild, asked: Action, table: Table) -> bool {
        match task.stage {
            GuildStage::Unregistering {
                src_guild_id,
                dest_guild,
                src_channels,
                src_roles,
                unregistering,
            } => {
                &&& src_guild_id == self.src_guild_id
                &&& self.is_dest(dest_guild)
                &&& are_copies(src_channels@, self.channels)
                &&& src_roles@ == self.roles
                &&& exists|base: Table|
                    {
                        &&& #[trigger] unregistering.has_come_to(
                            self.blacklists,
                            asked,
                            base,
                            table,
                        )
                        &&& has_unique_origins(base)
                        &&& is_used(base, self.configured())
                    }
            },
            GuildStage::FilteringChannels {
                src_guild_id,
                dest_guild,
                src_channels,
                src_roles,
                filtering,
            } => {
                &&& self.is_clean(table)
                &&& src_guild_id == self.src_guild_id
                &&& self.is_dest(dest_guild)
                &&& are_copies(src_channels@, self.channels)
                &&& src_roles@ == self.roles
                &&& filtering.blacklists_sorted@ == self.blacklists
                &&& exists|copies: Seq<Channel>|
                    {
                        &&& #[trigger] are_copies(copies, src_channels@)
                        &&& filtering.has_come_to(copies, asked, table)
                    }
            },
            GuildStage::FilteringRoles {
                src_guild_id,
                dest_guild,
                src_channels,
                channels,
                filtering,
            } => {
                &&& self.is_clean(table)
                &&& src_guild_id == self.src_guild_id
                &&& self.is_dest(dest_guild)
                &&& are_copies(src_channels@, self.channels)
                &&& self.are_new_channels(table, src_channels@, channels@)
                &&& filtering.blacklists_sorted@ == self.blacklists
                &&& filtering.has_come_to(self.roles, asked, table)
            },
            GuildStage::Mirroring { src_guild_id, dest_guild_id, roles, mirroring } => {
                &&& src_guild_id == self.src_guild_id
                &&& dest_guild_id == self.dest_guild_id
                &&& self.covers_roles(table, roles@)
                &&& self.mirrors_channels(mirroring, asked, table)
            },
            GuildStage::CreatingRoles { src_guild_id, dest_guild_id, creating } => {
                &&& self.clone_roles
                &&& self.is_clean(table)
                &&& self.settles_channels(table)
                &&& src_guild_id == self.src_guild_id
                &&& dest_guild_id == self.dest_guild_id
                &&& exists|new_roles: Seq<Role>, created: Seq<Role>|
                    {
                        &&& #[trigger] creating.has_come_to(new_roles, created, asked)
                        &&& self.covers_roles(table, new_roles)
                    }
            },
            GuildStage::RegisteringRoles { registering } => self.registers_roles(
                registering,
                asked,
                table,
            ),
            _ => {
                &&& self.is_looking(task, asked)
                &&& has_unique_origins(table)
                &&& is_used(table, self.configured())
            },
        }
    }

    /// Whether a setting up goes on, or has the mirror set up.
    pub open spec fn has_set_up(
        self,
        next: RegisterGuild,
        progress: Progress<(), MappingsError>,
        table: Table,
    ) -> bool {
        &&& self.is_of(next)
        &&& match progress {
            Progress::Perform(action) => self.sets_up(next, action, table),
            Progress::Done(()) => self.is_set_up(table),
            Progress::Failed(_) => true,
        }
    }
}

/// Whether a table holds only mappings between guilds that are configured.
pub open spec fn is_used(table: Table, configured: Seq<(u64, u64)>) -> bool {
    forall|row: MappingView| #[trigger] table.contains(row) ==> !is_unused(row, configured)
}

/// What follows once some roles were registered.
proof fn after_registering_roles(
    scene: Scene,
    task: RegisterGuild,
    registering: RegisterMappings,
    registered: Progress<(), MappingsError>,
    table: Table,
    next: RegisterGuild,
    progress: Progress<(), MappingsError>,
)
    requires
        scene.is_of(task),
        scene.is_clean(table),
        scene.settles_channels(table),
        registered matches Progress::Perform(action) ==> scene.registers_roles(
            registering,
            action,
            table,
        ),
        registered is Done ==> scene.settles_roles(table),
        task.after_registering(registering, registered, next, progress),
    ensures
        scene.has_set_up(next, progress, table),
{
}

/// Every role that is new and was not passed over has a record once it was created.
proof fn created_roles_are_recorded(
    scene: Scene,
    new_roles: Seq<Role>,
    created: Seq<Role>,
    made: Seq<(Role, Role)>,
    task: RegisterMappings,
    table: Table,
)
    requires
        scene.clone_roles,
        scene.keeps_roles_apart(),
        scene.covers_roles(table, new_roles),
        created.len() == creatable_roles(new_roles).len(),
        made == role_mirrors_made(creatable_roles(new_roles), created),
        task.registers_roles(made, (scene.src_guild_id, scene.dest_guild_id)),
    ensures
        scene.are_clean_records(task.records@),
        scene.records_roles(table, task.records@),
{
    let wanted = creatable_roles(new_roles);
    let to_create = |role: Role| !is_everyone(role);
    let records = task.records@;
    role_mirrors_made_lead_from(wanted, created);
    assert forall|j: int| 0 <= j < records.len() && (#[trigger] records[j]) is Ok implies
        scene.is_clean_row(records[j]->Ok_0@) by {
        assert(wanted.contains(made[j].0));
        let k = choose|k: int| 0 <= k < wanted.len() && wanted[k] == made[j].0;
        new_roles.lemma_filter_pred(to_create, k);
        new_roles.lemma_filter_contains_rev(to_create, made[j].0);
        let n = choose|n: int| 0 <= n < new_roles.len() && new_roles[n] == made[j].0;
        assert(scene.roles.contains(new_roles[n]));
        let i = choose|i: int| 0 <= i < scene.roles.len() && scene.roles[i] == new_roles[n];
        assert(scene.keeps_role_apart(scene.roles[i]));
        clean_row(scene, records[j]->Ok_0@, made[j].0.id);
    }
    assert forall|i: int| 0 <= i < scene.roles.len() implies scene.settles_role(
        table,
        #[trigger] scene.roles[i],
    ) || records_thing(records, scene.roles[i].id) by {
        let role = scene.roles[i];
        if !scene.settles_role(table, role) {
            let n = choose|n: int| 0 <= n < new_roles.len() && new_roles[n] == role;
            new_roles.lemma_filter_contains(to_create, n);
            let k = choose|k: int| 0 <= k < wanted.len() && wanted[k] == new_roles[n];
            let j = choose|j: int| 0 <= j < made.len() && (#[trigger] made[j]).0.id == wanted[k].id;
            assert(records[j] is Ok ==> leads_from(records[j]->Ok_0@, role.id));
        }
    }
}

/// What follows from a step of creating the roles.
proof fn after_creating_roles(
    scene: Scene,
    task: RegisterGuild,
    new_roles: Seq<Role>,
    created: Seq<Role>,
    creating: CreateRoles,
    progress_made: Progress<RoleMap, MappingsError>,
    table: Table,
    next: RegisterGuild,
    progress: Progress<(), MappingsError>,
)
    requires
        scene.is_of(task),
        scene.is_clean(table),
        scene.settles_channels(table),
        scene.clone_roles,
        scene.covers_roles(table, new_roles),
        match progress_made {
            Progress::Perform(action) => creating.has_come_to(new_roles, created, action),
            Progress::Done(map) => {
                let wanted = creatable_roles(new_roles);
                created.len() == wanted.len() && map@ == role_mirrors_made(wanted, created)
            },
            Progress::Failed(_) => true,
        },
        task.after_creating(
            scene.src_guild_id,
            scene.dest_guild_id,
            creating,
            progress_made,
            next,
            progress,
        ),
    ensures
        scene.has_set_up(next, progress, table),
{
    if let Progress::Done(made) = progress_made {
        let (before, registering, registered) = choose|
            before: RegisterMappings,
            registering: RegisterMappings,
            registered,
        |
            #![trigger before.step(Reply::Begin, registering, registered)]
            {
                &&& before.registers_roles(made@, (scene.src_guild_id, scene.dest_guild_id))
                &&& before.step(Reply::Begin, registering, registered)
                &&& task.after_registering(registering, registered, next, progress)
            };
        let records = before.records@;
        created_roles_are_recorded(scene, new_roles, created, made@, before, table);
        assert(filled(table, records, 0) =~= table);
        registering_continues(before, 0, table, registering, registered);
        if let Progress::Perform(action) = registered {
            assert(registering.has_come_to(action, table, table));
        }
        after_registering_roles(scene, task, registering, registered, table, next, progress);
    }
}

/// What follows once all channels are settled.
proof fn after_settling_channels(
    scene: Scene,
    task: RegisterGuild,
    roles: Vec<Role>,
    table: Table,
    next: RegisterGuild,
    progress: Progress<(), MappingsError>,
)
    requires
        scene.is_of(task),
        scene.is_clean(table),
        scene.settles_channels(table),
        scene.covers_roles(table, roles@),
        task.after_channels(scene.src_guild_id, scene.dest_guild_id, roles, next, progress),
    ensures
        scene.has_set_up(next, progress, table),
{
    if roles@.len() > 0 && task.clone_roles {
        let before = CreateRoles {
            dest_guild_id: scene.dest_guild_id,
            stage: CreateRolesStage::Begin { pending: roles },
        };
        let (creating, created) = choose|creating: CreateRoles, created|
            #![trigger task.after_creating(scene.src_guild_id, scene.dest_guild_id, creating, created, next, progress)]
            {
                &&& before.step(Reply::Begin, creating, created)
                &&& task.after_creating(
                    scene.src_guild_id,
                    scene.dest_guild_id,
                    creating,
                    created,
                    next,
                    progress,
                )
            };
        let wanted = creatable_roles(roles@);
        assert(wanted.skip(0) =~= wanted);
        creating_roles_continues(
            before.at(CreateRolesStage::Ended),
            roles@,
            Seq::empty(),
            roles@,
            creating,
            created,
        );
        after_creating_roles(
            scene,
            task,
            roles@,
            Seq::empty(),
            creating,
            created,
            table,
            next,
            progress,
        );
    }
}

/// What follows from a step of mirroring the channels.
proof fn after_mirroring_channels(
    scene: Scene,
    task: RegisterGuild,
    roles: Vec<Role>,
    mirroring: MirrorChannels,
    mirrored: Progress<(), MirrorError>,
    table: Table,
    next: RegisterGuild,
    progress: Progress<(), MappingsError>,
)
    requires
        scene.is_of(task),
        scene.has_mirrored(mirroring, mirrored, table),
        scene.covers_roles(table, roles@),
        task.after_mirroring(
            scene.src_guild_id,
            scene.dest_guild_id,
            roles,
            mirroring,
            mirrored,
            next,
            progress,
        ),
    ensures
        scene.has_set_up(next, progress, table),
{
    if mirrored is Done {
        after_settling_channels(scene, task, roles, table, next, progress);
    }
}

/// The channels that were filtered cover all that are not settled, and none is blacklisted.
proof fn filtered_channels_cover(
    scene: Scene,
    table: Table,
    src_channels: Seq<Channel>,
    channels: Seq<Channel>,
)
    requires
        are_copies(src_channels, scene.channels),
        scene.are_new_channels(table, src_channels, channels),
    ensures
        scene.covers_channels(table, channels),
        scene.are_free_channels(channels),
{
    let copies = choose|copies: Seq<Channel>|
        {
            &&& #[trigger] are_copies(copies, src_channels)
            &&& channels == new_channels(scene.blacklists, table, copies)
        };
    let is_new = |channel: Channel| is_new_channel(scene.blacklists, table, channel);
    assert forall|i: int| 0 <= i < scene.channels.len() implies scene.settles_channel(
        table,
        #[trigger] scene.channels[i],
    ) || is_listed(scene.channels[i], channels) by {
        assert(is_copy(copies[i], src_channels[i]) && is_copy(src_channels[i], scene.channels[i]));
        if !scene.settles_channel(table, scene.channels[i]) {
            copies.lemma_filter_contains(is_new, i);
            let n = choose|n: int| 0 <= n < channels.len() && channels[n] == copies[i];
            assert(is_copy(channels[n], scene.channels[i]));
        }
    }
    assert forall|n: int| 0 <= n < channels.len() implies !scene.blacklists.contains(
        Blacklist::Channel((#[trigger] channels[n]).id),
    ) by {
        copies.lemma_filter_pred(is_new, n);
    }
}

/// The roles that were filtered cover all that are not settled.
proof fn filtered_roles_cover(scene: Scene, table: Table, roles: Seq<Role>)
    requires
        roles == new_roles(scene.blacklists, table, scene.roles),
    ensures
        scene.covers_roles(table, roles),
{
    let is_new = |role: Role| is_new_role(scene.blacklists, table, role);
    assert forall|i: int| 0 <= i < scene.roles.len() implies scene.settles_role(
        table,
        #[trigger] scene.roles[i],
    ) || roles.contains(scene.roles[i]) by {
        if is_new(scene.roles[i]) {
            scene.roles.lemma_filter_contains(is_new, i);
        }
    }
    assert forall|n: int| 0 <= n < roles.len() implies scene.roles.contains(
        #[trigger] roles[n],
    ) && !scene.blacklists.contains(Blacklist::Role(roles[n].id)) by {
        scene.roles.lemma_filter_pred(is_new, n);
        assert(roles.contains(roles[n]));
        scene.roles.lemma_filter_contains_rev(is_new, roles[n]);
    }
}

/// What follows from a step of filtering the roles.
proof fn after_filtering_the_roles(
    scene: Scene,
    task: RegisterGuild,
    dest_guild: Guild,
    src_channels: Vec<Channel>,
    channels: Vec<Channel>,
    filtering: FilterBarRoles,
    filtered: Progress<Vec<Role>, MappingsError>,
    table: Table,
    next: RegisterGuild,
    progress: Progress<(), MappingsError>,
)
    requires
        scene.is_of(task),
        scene.is_clean(table),
        scene.is_dest(dest_guild),
        are_copies(src_channels@, scene.channels),
        scene.are_new_channels(table, src_channels@, channels@),
        filtering.blacklists_sorted@ == scene.blacklists,
        match filtered {
            Progress::Perform(action) => filtering.has_come_to(scene.roles, action, table),
            Progress::Done(roles) => roles@ == new_roles(scene.blacklists, table, scene.roles),
            Progress::Failed(_) => true,
        },
        task.after_filtering_roles(
            scene.src_guild_id,
            dest_guild,
            src_channels,
            channels,
            filtering,
            filtered,
            next,
            progress,
        ),
    ensures
        scene.has_set_up(next, progress, table),
{
    if let Progress::Done(roles) = filtered {
        filtered_channels_cover(scene, table, src_channels@, channels@);
        filtered_roles_cover(scene, table, roles@);
        if channels@.len() > 0 {
            let before = MirrorChannels {
                src_guild_id: scene.src_guild_id,
                dest_guild,
                stage: MirrorStage::Begin { new_channels: channels, src_channels },
            };
            let (mirroring, mirrored) = choose|mirroring: MirrorChannels, mirrored|
                #![trigger task.after_mirroring(scene.src_guild_id, dest_guild.id, roles, mirroring, mirrored, next, progress)]
                {
                    &&& before.step(Reply::Begin, mirroring, mirrored)
                    &&& task.after_mirroring(
                        scene.src_guild_id,
                        dest_guild.id,
                        roles,
                        mirroring,
                        mirrored,
                        next,
                        progress,
                    )
                };
            mirroring_begins(scene, before, channels, src_channels, table, mirroring, mirrored);
            after_mirroring_channels(
                scene,
                task,
                roles,
                mirroring,
                mirrored,
                table,
                next,
                progress,
            );
        } else {
            assert(scene.settles_channels(table));
            after_settling_channels(scene, task, roles, table, next, progress);
        }
    }
}

/// The first step of a mirroring of channels.
proof fn mirroring_begins(
    scene: Scene,
    task: MirrorChannels,
    new_channels: Vec<Channel>,
    src_channels: Vec<Channel>,
    table: Table,
    next: MirrorChannels,
    progress: Progress<(), MirrorError>,
)
    requires
        scene.is_between_guilds(task),
        scene.is_clean(table),
        scene.covers_channels(table, new_channels@),
        scene.are_free_channels(new_channels@),
        task.stage == (MirrorStage::Begin { new_channels, src_channels }),
        task.step(Reply::Begin, next, progress),
    ensures
        scene.has_mirrored(next, progress, table),
{
    let ended = task.at(MirrorStage::Ended);
    let before = CreateChannels {
        dest_guild_id: task.dest_guild.id,
        community: task.dest_guild.community(),
        stage: CreateStage::Begin { pending: new_channels },
    };
    let (creating, created) = choose|creating: CreateChannels, created|
        #![trigger ended.after_creating(src_channels, creating, created, next, progress)]
        {
            &&& before.step(Reply::Begin, creating, created)
            &&& ended.after_creating(src_channels, creating, created, next, progress)
        };
    let wanted = creatable_channels(new_channels@, scene.community);
    assert(wanted.skip(0) =~= wanted);
    creating_channels_continues(
        before.at(CreateStage::Ended),
        new_channels@,
        Seq::empty(),
        new_channels@,
        creating,
        created,
    );
    after_creating_channels(
        scene,
        ended,
        src_channels,
        new_channels@,
        Seq::empty(),
        creating,
        created,
        table,
        next,
        progress,
    );
}

/// What follows from a step of filtering the channels.
proof fn after_filtering_the_channels(
    scene: Scene,
    task: RegisterGuild,
    dest_guild: Guild,
    src_channels: Vec<Channel>,
    src_roles: Vec<Role>,
    copies: Seq<Channel>,
    filtering: FilterBarChannels,
    filtered: Progress<Vec<Channel>, MappingsError>,
    table: Table,
    next: RegisterGuild,
    progress: Progress<(), MappingsError>,
)
    requires
        scene.is_of(task),
        scene.is_clean(table),
        scene.is_dest(dest_guild),
        are_copies(src_channels@, scene.channels),
        src_roles@ == scene.roles,
        are_copies(copies, src_channels@),
        filtering.blacklists_sorted@ == scene.blacklists,
        match filtered {
            Progress::Perform(action) => filtering.has_come_to(copies, action, table),
            Progress::Done(channels) => channels@ == new_channels(scene.blacklists, table, copies),
            Progress::Failed(_) => true,
        },
        task.after_filtering_channels(
            scene.src_guild_id,
            dest_guild,
            src_channels,
            src_roles,
            filtering,
            filtered,
            next,
            progress,
        ),
    ensures
        scene.has_set_up(next, progress, table),
{
    if let Progress::Done(channels) = filtered {
        let (before, roles_filtering, roles_filtered) = choose|
            before: FilterBarRoles,
            roles_filtering: FilterBarRoles,
            roles_filtered,
        |
            #![trigger before.step(Reply::Begin, roles_filtering, roles_filtered)]
            {
                &&& before.blacklists_sorted@ == task.blacklists_sorted@
                &&& before.stage == (FilterRolesStage::Begin { pending: src_roles })
                &&& before.step(Reply::Begin, roles_filtering, roles_filtered)
                &&& task.after_filtering_roles(
                    scene.src_guild_id,
                    dest_guild,
                    src_channels,
                    channels,
                    roles_filtering,
                    roles_filtered,
                    next,
                    progress,
                )
            };
        filtering_roles_begins(before, src_roles, table, roles_filtering, roles_filtered);
        after_filtering_the_roles(
            scene,
            task,
            dest_guild,
            src_channels,
            channels,
            roles_filtering,
            roles_filtered,
            table,
            next,
            progress,
        );
    }
}

/// What follows from a step of forgetting what is blacklisted.
proof fn after_unregistering_blacklisted(
    scene: Scene,
    task: RegisterGuild,
    dest_guild: Guild,
    src_channels: Vec<Channel>,
    src_roles: Vec<Role>,
    base: Table,
    unregistering: UnregisterBlacklistedChannels,
    unregistered: Progress<(), MappingsError>,
    table: Table,
    next: RegisterGuild,
    progress: Progress<(), MappingsError>,
)
    requires
        scene.is_of(task),
        scene.is_dest(dest_guild),
        are_copies(src_channels@, scene.channels),
        src_roles@ == scene.roles,
        has_unique_origins(base),
        is_used(base, scene.configured()),
        match unregistered {
            Progress::Perform(action) => unregistering.has_come_to(
                scene.blacklists,
                action,
                base,
                table,
            ),
            Progress::Done(()) => table == base.filter(
                |row: MappingView| !is_barred(row, scene.blacklists),
            ),
            Progress::Failed(_) => true,
        },
        task.after_unregistering(
            scene.src_guild_id,
            dest_guild,
            src_channels,
            src_roles,
            unregistering,
            unregistered,
            next,
            progress,
        ),
    ensures
        scene.has_set_up(next, progress, table),
{
    if unregistered is Done {
        let (before, filtering, filtered) = choose|
            before: FilterBarChannels,
            filtering: FilterBarChannels,
            filtered,
        |
            #![trigger before.step(Reply::Begin, filtering, filtered)]
            {
                &&& before.blacklists_sorted@ == task.blacklists_sorted@
                &&& before.stage matches FilterChannelsStage::Begin { pending }
                &&& are_copies(pending@, src_channels@)
                &&& before.step(Reply::Begin, filtering, filtered)
                &&& task.after_filtering_channels(
                    scene.src_guild_id,
                    dest_guild,
                    src_channels,
                    src_roles,
                    filtering,
                    filtered,
                    next,
                    progress,
                )
            };
        let copies = before.stage->Begin_pending;
        filtering_channels_begins(before, copies, table, filtering, filtered);
        assert(scene.is_clean(table));
        after_filtering_the_channels(
            scene,
            task,
            dest_guild,
            src_channels,
            src_roles,
            copies@,
            filtering,
            filtered,
            table,
            next,
            progress,
        );
    }
}

/// One step of finding out what is there.
pub(crate) proof fn looking_goes_on(
    scene: Scene,
    task: RegisterGuild,
    asked: Action,
    table: Table,
    reply: Reply,
    after: Table,
    next: RegisterGuild,
    progress: Progress<(), MappingsError>,
)
    requires
        scene.is_of(task),
        scene.is_looking(task, asked),
        !(task.stage is RestingAgain),
        serves(table, asked, reply, after),
        scene.shows(asked, reply),
        task.awaits() is Some,
        reply.answers(task.awaits()->0),
        task.step(reply, next, progress),
    ensures
        after == table,
        scene.is_of(next),
        progress matches Progress::Perform(action) && scene.is_looking(next, action),
{
}

/// One step of setting up a mirror for the first time.
pub(crate) proof fn setting_up_goes_on(
    scene: Scene,
    task: RegisterGuild,
    asked: Action,
    table: Table,
    reply: Reply,
    after: Table,
    next: RegisterGuild,
    progress: Progress<(), MappingsError>,
)
    requires
        scene.is_of(task),
        scene.sets_up(task, asked, table),
        serves(table, asked, reply, after),
        scene.shows(asked, reply),
        task.awaits() is Some,
        reply.answers(task.awaits()->0),
        task.step(reply, next, progress),
    ensures
        scene.has_set_up(next, progress, after),
{
    let ended = task.at(GuildStage::Ended);
    match task.stage {
        GuildStage::RestingAgain { src_guild_id, dest_guild, src_channels, src_roles } => {
            let (before, unregistering, unregistered) = choose|
                before: UnregisterBlacklistedChannels,
                unregistering: UnregisterBlacklistedChannels,
                unregistered,
            |
                #![trigger before.step(Reply::Begin, unregistering, unregistered)]
                {
                    &&& before.stage matches BlacklistStage::Begin { pending }
                    &&& pending@ == ended.blacklists_sorted@
                    &&& before.step(Reply::Begin, unregistering, unregistered)
                    &&& ended.after_unregistering(
                        src_guild_id,
                        dest_guild,
                        src_channels,
                        src_roles,
                        unregistering,
                        unregistered,
                        next,
                        progress,
                    )
                };
            unregistering_continues(
                scene.blacklists,
                scene.blacklists,
                table,
                table,
                unregistering,
                unregistered,
            );
            after_unregistering_blacklisted(
                scene,
                ended,
                dest_guild,
                src_channels,
                src_roles,
                table,
                unregistering,
                unregistered,
                table,
                next,
                progress,
            );
        },
        GuildStage::Unregistering {
            src_guild_id,
            dest_guild,
            src_channels,
            src_roles,
            unregistering: before,
        } => {
            let base = choose|base: Table|
                {
                    &&& #[trigger] before.has_come_to(scene.blacklists, asked, base, table)
                    &&& has_unique_origins(base)
                    &&& is_used(base, scene.configured())
                };
            let (unregistering, unregistered) = choose|
                unregistering: UnregisterBlacklistedChannels,
                unregistered,
            |
                #![trigger before.step(reply, unregistering, unregistered)]
                {
                    &&& before.step(reply, unregistering, unregistered)
                    &&& ended.after_unregistering(
                        src_guild_id,
                        dest_guild,
                        src_channels,
                        src_roles,
                        unregistering,
                        unregistered,
                        next,
                        progress,
                    )
                };
            unregistering_goes_on(
                before,
                scene.blacklists,
                asked,
                base,
                table,
                reply,
                after,
                unregistering,
                unregistered,
            );
            after_unregistering_blacklisted(
                scene,
                ended,
                dest_guild,
                src_channels,
                src_roles,
                base,
                unregistering,
                unregistered,
                after,
                next,
                progress,
            );
        },
        GuildStage::FilteringChannels {
            src_guild_id,
            dest_guild,
            src_channels,
            src_roles,
            filtering: before,
        } => {
            let copies = choose|copies: Seq<Channel>|
                {
                    &&& #[trigger] are_copies(copies, src_channels@)
                    &&& before.has_come_to(copies, asked, table)
                };
            let (filtering, filtered) = choose|filtering: FilterBarChannels, filtered|
                #![trigger before.step(reply, filtering, filtered)]
                {
                    &&& before.step(reply, filtering, filtered)
                    &&& ended.after_filtering_channels(
                        src_guild_id,
                        dest_guild,
                        src_channels,
                        src_roles,
                        filtering,
                        filtered,
                        next,
                        progress,
                    )
                };
            filtering_channels_goes_on(
                before,
                copies,
                asked,
                table,
                reply,
                after,
                filtering,
                filtered,
            );
            after_filtering_the_channels(
                scene,
                ended,
                dest_guild,
                src_channels,
                src_roles,
                copies,
                filtering,
                filtered,
                after,
                next,
                progress,
            );
        },
        GuildStage::FilteringRoles {
            src_guild_id,
            dest_guild,
            src_channels,
            channels,
            filtering: before,
        } => {
            let (filtering, filtered) = choose|filtering: FilterBarRoles, filtered|
                #![trigger before.step(reply, filtering, filtered)]
                {
                    &&& before.step(reply, filtering, filtered)
                    &&& ended.after_filtering_roles(
                        src_guild_id,
                        dest_guild,
                        src_channels,
                        channels,
                        filtering,
                        filtered,
                        next,
                        progress,
                    )
                };
            filtering_roles_goes_on(
                before,
                scene.roles,
                asked,
                table,
                reply,
                after,
                filtering,
                filtered,
            );
            after_filtering_the_roles(
                scene,
                ended,
                dest_guild,
                src_channels,
                channels,
                filtering,
                filtered,
                after,
                next,
                progress,
            );
        },
        GuildStage::Mirroring { src_guild_id, dest_guild_id, roles, mirroring: before } => {
            let (mirroring, mirrored) = choose|mirroring: MirrorChannels, mirrored|
                #![trigger before.step(reply, mirroring, mirrored)]
                {
                    &&& before.step(reply, mirroring, mirrored)
                    &&& ended.after_mirroring(
                        src_guild_id,
                        dest_guild_id,
                        roles,
                        mirroring,
                        mirrored,
                        next,
                        progress,
                    )
                };
            mirroring_goes_on(scene, before, asked, table, reply, after, mirroring, mirrored);
            settled_channels_stay(scene, table, after);
            after_mirroring_channels(
                scene,
                ended,
                roles,
                mirroring,
                mirrored,
                after,
                next,
                progress,
            );
        },
        GuildStage::CreatingRoles { src_guild_id, dest_guild_id, creating: before } => {
            let (new_roles, created) = choose|new_roles: Seq<Role>, created: Seq<Role>|
                {
                    &&& #[trigger] before.has_come_to(new_roles, created, asked)
                    &&& scene.covers_roles(table, new_roles)
                };
            let (creating, progress_made) = choose|creating: CreateRoles, progress_made|
                #![trigger before.step(reply, creating, progress_made)]
                {
                    &&& before.step(reply, creating, progress_made)
                    &&& ended.after_creating(
                        src_guild_id,
                        dest_guild_id,
                        creating,
                        progress_made,
                        next,
                        progress,
                    )
                };
            creating_roles_goes_on(
                before,
                new_roles,
                created,
                asked,
                reply,
                creating,
                progress_made,
            );
            let created = if before.stage is Creating {
                created.push(reply->Role_0)
            } else {
                created
            };
            after_creating_roles(
                scene,
                ended,
                new_roles,
                created,
                creating,
                progress_made,
                after,
                next,
                progress,
            );
        },
        GuildStage::RegisteringRoles { registering: before } => {
            let base = choose|base: Table|
                {
                    &&& #[trigger] before.has_come_to(asked, base, table)
                    &&& scene.is_clean(base)
                    &&& scene.settles_channels(base)
                    &&& scene.are_clean_records(before.records@)
                    &&& scene.records_roles(base, before.records@)
                };
            let (registering, registered) = choose|registering: RegisterMappings, registered|
                #![trigger before.step(reply, registering, registered)]
                {
                    &&& before.step(reply, registering, registered)
                    &&& ended.after_registering(registering, registered, next, progress)
                };
            registering_goes_on(before, asked, base, table, reply, after, registering, registered);
            registering_settles_roles(scene, before, asked, base, table, reply, after);
            after_registering_roles(scene, ended, registering, registered, after, next, progress);
        },
        _ => {
            looking_goes_on(scene, task, asked, table, reply, after, next, progress);
        },
    }
}

/// Registering one more role keeps the table clean and all channels settled, and once all are
/// registered every role is settled.
proof fn registering_settles_roles(
    scene: Scene,
    before: RegisterMappings,
    asked: Action,
    base: Table,
    table: Table,
    reply: Reply,
    after: Table,
)
    requires
        before.has_come_to(asked, base, table),
        scene.is_clean(base),
        scene.settles_channels(base),
        scene.are_clean_records(before.records@),
        scene.records_roles(base, before.records@),
        serves(table, asked, reply, after),
        reply is Done,
    ensures
        scene.is_clean(after),
        scene.settles_channels(after),
        ({
            let n = before.records@.len() as int;
            are_mappings(before.records@, n) && after == filled(base, before.records@, n)
                ==> scene.settles_roles(after)
        }),
{
    let records = before.records@;
    let n = records.len() as int;
    filling_grows(scene, base, records, n);
    assert(grows(base, after));
    settled_channels_stay(scene, base, after);
    if are_mappings(records, n) && after == filled(base, records, n) {
        assert forall|i: int| 0 <= i < scene.roles.len() implies scene.settles_role(
            after,
            #[trigger] scene.roles[i],
        ) by {
            if !scene.settles_role(base, scene.roles[i]) {
                filled_registers(base, records, scene.roles[i].id);
            }
        }
    }
}

} // verus!
