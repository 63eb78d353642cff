//! Setting up a mirror a second time.
use crate::blacklist::Blacklist;
use crate::config::GuildSettings;
use crate::errors::MappingsError;
use crate::model::{are_copies, is_copy, Channel, Guild, MappingView, Role};
use crate::operation::{is_run, runs_end, Action, Progress, Reply, Task};
use crate::table::{
    has_unique_keys, has_unique_origins, is_between, is_served, keys_stay_unique_in_runs,
    leads_from, serves, unique_origins_are_unique_keys, Table,
};
use crate::util::cleanup::{
    cleaning_goes_on, configured_pairs, from_next_channel, is_barred, is_cleaned, is_unused,
    next_channel_is_listed, BlacklistStage, CleanupStage, CleanupUnusedMappings,
    UnregisterBlacklistedChannels,
};
use crate::util::create::{
    is_skipped, nothing_is_created_for_no_channels, CreateChannels, CreateStage,
};
use crate::util::filter::{
    filtering_channels_begins, filtering_channels_goes_on, filtering_roles_begins,
    filtering_roles_goes_on, is_new_channel, is_new_role, new_channels, new_roles,
    FilterBarChannels, FilterBarRoles, FilterChannelsStage, FilterRolesStage,
};
use crate::util::mirror::{MirrorChannels, MirrorError, MirrorStage};
use crate::util::roles::{
    is_everyone, nothing_is_created_for_no_roles, CreateRoles, CreateRolesStage,
};
use crate::util::scene::{is_quiet, quiet_mirroring_goes_on, stays_quiet, Scene};
use crate::util::settle::{looking_goes_on, setting_up_goes_on};
use crate::util::setup::{GuildStage, RegisterGuild, RegisterGuildSettings, SetupStage};
use vstd::prelude::*;
use vstd::seq_lib::to_multiset_contains;

verus! {

// ---------------------------------------------------------------------------
// Setting up again
// ---------------------------------------------------------------------------

/// Whether an operation changes what a mirror holds, or what is known of it.
pub open spec fn changes_mirror(action: Action) -> bool {
    ||| action is CreateChannel
    ||| action is CreateRole
    ||| action is RegisterMapping
    ||| action is UnregisterMapping
}

impl Scene {
    /// Whether a setting up of a mirror that is set up waits for the answer to an operation.
    pub open spec fn finds_set_up(self, task: RegisterGuild, asked: Action, table: Table) -> bool {
        match task.stage {
            GuildStage::Unregistering {
                src_guild_id,
                dest_guild,
                src_channels,
                src_roles,
                unregistering,
            } => {
                &&& src_guild_id == self.src_guild_id
                &&& self.is_dest(dest_guild)
                &&& are_copies(src_channels@, self.channels)
                &&& src_roles@ == self.roles
                &&& self.finds_none_barred(unregistering, asked)
            },
            GuildStage::FilteringChannels { .. } => self.sets_up(task, asked, table),
            GuildStage::FilteringRoles { .. } => self.sets_up(task, asked, table),
            GuildStage::Mirroring { src_guild_id, dest_guild_id, roles, mirroring } => {
                &&& src_guild_id == self.src_guild_id
                &&& dest_guild_id == self.dest_guild_id
                &&& roles@ == new_roles(self.blacklists, table, self.roles)
                &&& is_quiet(mirroring, asked)
            },
            _ => self.is_looking(task, asked),
        }
    }

    /// Whether a forgetting of blacklisted channels is at looking one of them up.
    pub open spec fn finds_none_barred(
        self,
        task: UnregisterBlacklistedChannels,
        asked: Action,
    ) -> bool {
        &&& task.stage matches BlacklistStage::Finding { pending }
        &&& asked matches Action::FindMapping { orig_id }
        &&& self.blacklists.contains(Blacklist::Channel(orig_id))
        &&& forall|i: int|
            0 <= i < pending@.len() ==> self.blacklists.contains(#[trigger] pending@[i])
    }

    /// Whether a setting up of a mirror that is set up goes on without changing anything, or is
    /// done.
    pub open spec fn has_found_set_up(
        self,
        next: RegisterGuild,
        progress: Progress<(), MappingsError>,
        table: Table,
    ) -> bool {
        &&& self.is_of(next)
        &&& match progress {
            Progress::Perform(action) => self.finds_set_up(next, action, table) && !changes_mirror(
                action,
            ),
            Progress::Done(()) => true,
            Progress::Failed(_) => false,
        }
    }
}

/// What follows once the channels of a mirror that is set up were dealt with.
proof fn no_roles_are_left(
    scene: Scene,
    task: RegisterGuild,
    roles: Vec<Role>,
    table: Table,
    next: RegisterGuild,
    progress: Progress<(), MappingsError>,
)
    requires
        scene.is_of(task),
        scene.is_set_up(table),
        roles@ == new_roles(scene.blacklists, table, scene.roles),
        task.after_channels(scene.src_guild_id, scene.dest_guild_id, roles, next, progress),
    ensures
        scene.has_found_set_up(next, progress, table),
{
    if roles@.len() > 0 && task.clone_roles {
        let before = CreateRoles {
            dest_guild_id: scene.dest_guild_id,
            stage: CreateRolesStage::Begin { pending: roles },
        };
        let (creating, created) = choose|creating: CreateRoles, created|
            #![trigger task.after_creating(scene.src_guild_id, scene.dest_guild_id, creating, created, next, progress)]
            {
                &&& before.step(Reply::Begin, creating, created)
                &&& task.after_creating(
                    scene.src_guild_id,
                    scene.dest_guild_id,
                    creating,
                    created,
                    next,
                    progress,
                )
            };
        let is_new = |role: Role| is_new_role(scene.blacklists, table, role);
        let to_create = |role: Role| !is_everyone(role);
        assert forall|n: int| 0 <= n < roles@.len() implies !to_create(#[trigger] roles@[n]) by {
            scene.roles.lemma_filter_pred(is_new, n);
            assert(roles@.contains(roles@[n]));
            scene.roles.lemma_filter_contains_rev(is_new, roles@[n]);
            let i = choose|i: int| 0 <= i < scene.roles.len() && scene.roles[i] == roles@[n];
            assert(scene.settles_role(table, scene.roles[i]));
        }
        roles@.lemma_all_neg_filter_empty(to_create);
        nothing_is_created_for_no_roles(before, roles, creating, created);
    }
}

/// The first step of a mirroring of channels that are all passed over.
proof fn no_channels_are_left(
    scene: Scene,
    task: MirrorChannels,
    new_channels: Vec<Channel>,
    src_channels: Vec<Channel>,
    table: Table,
    next: MirrorChannels,
    progress: Progress<(), MirrorError>,
)
    requires
        scene.is_between_guilds(task),
        scene.settles_channels(table),
        are_copies(src_channels@, scene.channels),
        scene.are_new_channels(table, src_channels@, new_channels@),
        task.stage == (MirrorStage::Begin { new_channels, src_channels }),
        task.step(Reply::Begin, next, progress),
    ensures
        stays_quiet(task, next, progress),
{
    let ended = task.at(MirrorStage::Ended);
    let before = CreateChannels {
        dest_guild_id: task.dest_guild.id,
        community: task.dest_guild.community(),
        stage: CreateStage::Begin { pending: new_channels },
    };
    let (creating, created) = choose|creating: CreateChannels, created|
        #![trigger ended.after_creating(src_channels, creating, created, next, progress)]
        {
            &&& before.step(Reply::Begin, creating, created)
            &&& ended.after_creating(src_channels, creating, created, next, progress)
        };
    let copies = choose|copies: Seq<Channel>|
        {
            &&& #[trigger] are_copies(copies, src_channels@)
            &&& new_channels@ == crate::util::filter::new_channels(scene.blacklists, table, copies)
        };
    let is_new = |channel: Channel| is_new_channel(scene.blacklists, table, channel);
    let to_create = |channel: Channel| !is_skipped(channel, scene.community);
    assert forall|n: int| 0 <= n < new_channels@.len() implies !to_create(
        #[trigger] new_channels@[n],
    ) by {
        copies.lemma_filter_pred(is_new, n);
        assert(new_channels@.contains(new_channels@[n]));
        copies.lemma_filter_contains_rev(is_new, new_channels@[n]);
        let i = choose|i: int| 0 <= i < copies.len() && copies[i] == new_channels@[n];
        assert(is_copy(copies[i], src_channels@[i]));
        assert(is_copy(src_channels@[i], scene.channels[i]));
        assert(scene.settles_channel(table, scene.channels[i]));
    }
    new_channels@.lemma_all_neg_filter_empty(to_create);
    nothing_is_created_for_no_channels(before, new_channels, creating, created);
}

/// What follows from a step of filtering the roles where the mirror is set up.
proof fn set_up_after_filtering_roles(
    scene: Scene,
    task: RegisterGuild,
    dest_guild: Guild,
    src_channels: Vec<Channel>,
    channels: Vec<Channel>,
    filtering: FilterBarRoles,
    filtered: Progress<Vec<Role>, MappingsError>,
    table: Table,
    next: RegisterGuild,
    progress: Progress<(), MappingsError>,
)
    requires
        scene.is_of(task),
        scene.is_set_up(table),
        scene.is_dest(dest_guild),
        are_copies(src_channels@, scene.channels),
        scene.are_new_channels(table, src_channels@, channels@),
        filtering.blacklists_sorted@ == scene.blacklists,
        match filtered {
            Progress::Perform(action) => filtering.has_come_to(scene.roles, action, table),
            Progress::Done(roles) => roles@ == new_roles(scene.blacklists, table, scene.roles),
            Progress::Failed(_) => false,
        },
        task.after_filtering_roles(
            scene.src_guild_id,
            dest_guild,
            src_channels,
            channels,
            filtering,
            filtered,
            next,
            progress,
        ),
    ensures
        scene.has_found_set_up(next, progress, table),
{
    if let Progress::Done(roles) = filtered {
        if channels@.len() > 0 {
            let before = MirrorChannels {
                src_guild_id: scene.src_guild_id,
                dest_guild,
                stage: MirrorStage::Begin { new_channels: channels, src_channels },
            };
            let (mirroring, mirrored) = choose|mirroring: MirrorChannels, mirrored|
                #![trigger task.after_mirroring(scene.src_guild_id, dest_guild.id, roles, mirroring, mirrored, next, progress)]
                {
                    &&& before.step(Reply::Begin, mirroring, mirrored)
                    &&& task.after_mirroring(
                        scene.src_guild_id,
                        dest_guild.id,
                        roles,
                        mirroring,
                        mirrored,
                        next,
                        progress,
                    )
                };
            no_channels_are_left(scene, before, channels, src_channels, table, mirroring, mirrored);
            if mirrored is Done {
                no_roles_are_left(scene, task, roles, table, next, progress);
            }
        } else {
            no_roles_are_left(scene, task, roles, table, next, progress);
        }
    }
}

/// What follows from a step of filtering the channels where the mirror is set up.
proof fn set_up_after_filtering_channels(
    scene: Scene,
    task: RegisterGuild,
    dest_guild: Guild,
    src_channels: Vec<Channel>,
    src_roles: Vec<Role>,
    copies: Seq<Channel>,
    filtering: FilterBarChannels,
    filtered: Progress<Vec<Channel>, MappingsError>,
    table: Table,
    next: RegisterGuild,
    progress: Progress<(), MappingsError>,
)
    requires
        scene.is_of(task),
        scene.is_set_up(table),
        scene.is_dest(dest_guild),
        are_copies(src_channels@, scene.channels),
        src_roles@ == scene.roles,
        are_copies(copies, src_channels@),
        filtering.blacklists_sorted@ == scene.blacklists,
        match filtered {
            Progress::Perform(action) => filtering.has_come_to(copies, action, table),
            Progress::Done(channels) => channels@ == new_channels(scene.blacklists, table, copies),
            Progress::Failed(_) => false,
        },
        task.after_filtering_channels(
            scene.src_guild_id,
            dest_guild,
            src_channels,
            src_roles,
            filtering,
            filtered,
            next,
            progress,
        ),
    ensures
        scene.has_found_set_up(next, progress, table),
{
    if let Progress::Done(channels) = filtered {
        let (before, roles_filtering, roles_filtered) = choose|
            before: FilterBarRoles,
            roles_filtering: FilterBarRoles,
            roles_filtered,
        |
            #![trigger before.step(Reply::Begin, roles_filtering, roles_filtered)]
            {
                &&& before.blacklists_sorted@ == task.blacklists_sorted@
                &&& before.stage == (FilterRolesStage::Begin { pending: src_roles })
                &&& before.step(Reply::Begin, roles_filtering, roles_filtered)
                &&& task.after_filtering_roles(
                    scene.src_guild_id,
                    dest_guild,
                    src_channels,
                    channels,
                    roles_filtering,
                    roles_filtered,
                    next,
                    progress,
                )
            };
        filtering_roles_begins(before, src_roles, table, roles_filtering, roles_filtered);
        set_up_after_filtering_roles(
            scene,
            task,
            dest_guild,
            src_channels,
            channels,
            roles_filtering,
            roles_filtered,
            table,
            next,
            progress,
        );
    }
}

/// What follows while blacklisted channels are looked up where the mirror is set up.
proof fn set_up_after_unregistering(
    scene: Scene,
    task: RegisterGuild,
    dest_guild: Guild,
    src_channels: Vec<Channel>,
    src_roles: Vec<Role>,
    left: Seq<Blacklist>,
    unregistering: UnregisterBlacklistedChannels,
    unregistered: Progress<(), MappingsError>,
    table: Table,
    next: RegisterGuild,
    progress: Progress<(), MappingsError>,
)
    requires
        scene.is_of(task),
        scene.is_set_up(table),
        scene.is_dest(dest_guild),
        are_copies(src_channels@, scene.channels),
        src_roles@ == scene.roles,
        forall|i: int| 0 <= i < left.len() ==> scene.blacklists.contains(#[trigger] left[i]),
        UnregisterBlacklistedChannels::continues(left, unregistering, unregistered),
        task.after_unregistering(
            scene.src_guild_id,
            dest_guild,
            src_channels,
            src_roles,
            unregistering,
            unregistered,
            next,
            progress,
        ),
    ensures
        scene.has_found_set_up(next, progress, table),
{
    next_channel_is_listed(left, scene.blacklists);
    let rest = from_next_channel(left);
    if rest.len() > 0 {
        assert(rest[0] == Blacklist::Channel(rest[0].spec_id()));
        assert forall|i: int| 0 <= i < rest.drop_first().len() implies scene.blacklists.contains(
            #[trigger] rest.drop_first()[i],
        ) by {
            assert(rest.drop_first()[i] == rest[i + 1]);
        }
    } else {
        let (before, filtering, filtered) = choose|
            before: FilterBarChannels,
            filtering: FilterBarChannels,
            filtered,
        |
            #![trigger before.step(Reply::Begin, filtering, filtered)]
            {
                &&& before.blacklists_sorted@ == task.blacklists_sorted@
                &&& before.stage matches FilterChannelsStage::Begin { pending }
                &&& are_copies(pending@, src_channels@)
                &&& before.step(Reply::Begin, filtering, filtered)
                &&& task.after_filtering_channels(
                    scene.src_guild_id,
                    dest_guild,
                    src_channels,
                    src_roles,
                    filtering,
                    filtered,
                    next,
                    progress,
                )
            };
        let copies = before.stage->Begin_pending;
        filtering_channels_begins(before, copies, table, filtering, filtered);
        set_up_after_filtering_channels(
            scene,
            task,
            dest_guild,
            src_channels,
            src_roles,
            copies@,
            filtering,
            filtered,
            table,
            next,
            progress,
        );
    }
}

/// One step of setting up a mirror that is set up.
proof fn finding_set_up_goes_on(
    scene: Scene,
    task: RegisterGuild,
    asked: Action,
    table: Table,
    reply: Reply,
    after: Table,
    next: RegisterGuild,
    progress: Progress<(), MappingsError>,
)
    requires
        scene.is_of(task),
        scene.is_set_up(table),
        scene.finds_set_up(task, asked, table),
        serves(table, asked, reply, after),
        scene.shows(asked, reply),
        task.awaits() is Some,
        reply.answers(task.awaits()->0),
        task.step(reply, next, progress),
    ensures
        after == table,
        scene.has_found_set_up(next, progress, table),
{
    let ended = task.at(GuildStage::Ended);
    match task.stage {
        GuildStage::RestingAgain { src_guild_id, dest_guild, src_channels, src_roles } => {
            let (before, unregistering, unregistered) = choose|
                before: UnregisterBlacklistedChannels,
                unregistering: UnregisterBlacklistedChannels,
                unregistered,
            |
                #![trigger before.step(Reply::Begin, unregistering, unregistered)]
                {
                    &&& before.stage matches BlacklistStage::Begin { pending }
                    &&& pending@ == ended.blacklists_sorted@
                    &&& before.step(Reply::Begin, unregistering, unregistered)
                    &&& ended.after_unregistering(
                        src_guild_id,
                        dest_guild,
                        src_channels,
                        src_roles,
                        unregistering,
                        unregistered,
                        next,
                        progress,
                    )
                };
            set_up_after_unregistering(
                scene,
                ended,
                dest_guild,
                src_channels,
                src_roles,
                scene.blacklists,
                unregistering,
                unregistered,
                table,
                next,
                progress,
            );
        },
        GuildStage::Unregistering {
            src_guild_id,
            dest_guild,
            src_channels,
            src_roles,
            unregistering: before,
        } => {
            let (unregistering, unregistered) = choose|
                unregistering: UnregisterBlacklistedChannels,
                unregistered,
            |
                #![trigger before.step(reply, unregistering, unregistered)]
                {
                    &&& before.step(reply, unregistering, unregistered)
                    &&& ended.after_unregistering(
                        src_guild_id,
                        dest_guild,
                        src_channels,
                        src_roles,
                        unregistering,
                        unregistered,
                        next,
                        progress,
                    )
                };
            if let Some(mapping) = reply->Mapping_0 {
                assert(table.contains(mapping@));
                assert(is_barred(mapping@, scene.blacklists));
            }
            set_up_after_unregistering(
                scene,
                ended,
                dest_guild,
                src_channels,
                src_roles,
                before.stage->Finding_pending@,
                unregistering,
                unregistered,
                table,
                next,
                progress,
            );
        },
        GuildStage::FilteringChannels {
            src_guild_id,
            dest_guild,
            src_channels,
            src_roles,
            filtering: before,
        } => {
            let copies = choose|copies: Seq<Channel>|
                {
                    &&& #[trigger] are_copies(copies, src_channels@)
                    &&& before.has_come_to(copies, asked, table)
                };
            let (filtering, filtered) = choose|filtering: FilterBarChannels, filtered|
                #![trigger before.step(reply, filtering, filtered)]
                {
                    &&& before.step(reply, filtering, filtered)
                    &&& ended.after_filtering_channels(
                        src_guild_id,
                        dest_guild,
                        src_channels,
                        src_roles,
                        filtering,
                        filtered,
                        next,
                        progress,
                    )
                };
            filtering_channels_goes_on(
                before,
                copies,
                asked,
                table,
                reply,
                after,
                filtering,
                filtered,
            );
            set_up_after_filtering_channels(
                scene,
                ended,
                dest_guild,
                src_channels,
                src_roles,
                copies,
                filtering,
                filtered,
                table,
                next,
                progress,
            );
        },
        GuildStage::FilteringRoles {
            src_guild_id,
            dest_guild,
            src_channels,
            channels,
            filtering: before,
        } => {
            let (filtering, filtered) = choose|filtering: FilterBarRoles, filtered|
                #![trigger before.step(reply, filtering, filtered)]
                {
                    &&& before.step(reply, filtering, filtered)
                    &&& ended.after_filtering_roles(
                        src_guild_id,
                        dest_guild,
                        src_channels,
                        channels,
                        filtering,
                        filtered,
                        next,
                        progress,
                    )
                };
            filtering_roles_goes_on(
                before,
                scene.roles,
                asked,
                table,
                reply,
                after,
                filtering,
                filtered,
            );
            set_up_after_filtering_roles(
                scene,
                ended,
                dest_guild,
                src_channels,
                channels,
                filtering,
                filtered,
                table,
                next,
                progress,
            );
        },
        GuildStage::Mirroring { src_guild_id, dest_guild_id, roles, mirroring: before } => {
            let (mirroring, mirrored) = choose|mirroring: MirrorChannels, mirrored|
                #![trigger before.step(reply, mirroring, mirrored)]
                {
                    &&& before.step(reply, mirroring, mirrored)
                    &&& ended.after_mirroring(
                        src_guild_id,
                        dest_guild_id,
                        roles,
                        mirroring,
                        mirrored,
                        next,
                        progress,
                    )
                };
            quiet_mirroring_goes_on(before, asked, table, reply, after, mirroring, mirrored);
            if mirrored is Done {
                no_roles_are_left(scene, ended, roles, table, next, progress);
            }
        },
        _ => {
            looking_goes_on(scene, task, asked, table, reply, after, next, progress);
        },
    }
}

// ---------------------------------------------------------------------------
// The whole of it
// ---------------------------------------------------------------------------

impl Scene {
    /// Whether this is the scene of a mirror with the given settings.
    pub open spec fn has_settings(self, settings: GuildSettings) -> bool {
        &&& self.src_guild_id == settings.src_guild_id
        &&& self.dest_guild_id == settings.dest_guild_id
        &&& self.clone_roles == settings.clone_roles
        &&& self.blacklists == settings.blacklists@
    }

    /// The same scene, with the blacklist as it is sorted for a setting up.
    pub open spec fn sorted_for(self, task: RegisterGuild) -> Scene {
        Scene { blacklists: task.blacklists_sorted@, ..self }
    }

    /// Whether the service shows what is there with each of its answers.
    pub open spec fn is_shown<T, E>(
        self,
        replies: Seq<Reply>,
        progress: Seq<Progress<T, E>>,
    ) -> bool {
        forall|i: int|
            #![trigger replies[i]]
            0 < i < replies.len() ==> match progress[i - 1] {
                Progress::Perform(action) => self.shows(action, replies[i]),
                _ => true,
            }
    }

    /// Whether this is a setting up of the one mirror with the given settings, at its
    /// beginning.
    pub open spec fn begins(self, task: RegisterGuildSettings, settings: GuildSettings) -> bool {
        &&& self.has_settings(settings)
        &&& self.src_guild_id != self.dest_guild_id
        &&& self.keeps_roles_apart()
        &&& task.guilds@ == seq![settings]
        &&& task.stage is Begin
    }

    /// Whether a setting up waits for the answer to an operation, on the way to having the
    /// mirror set up, and the table that it began with.
    pub open spec fn sets_all_up(
        self,
        task: RegisterGuildSettings,
        settings: GuildSettings,
        asked: Action,
        before: Table,
        table: Table,
    ) -> bool {
        &&& task.guilds@ == seq![settings]
        &&& match task.stage {
            SetupStage::Connecting => asked is Connect && table == before,
            SetupStage::Cleaning(cleaning) => cleaning.configured@ == self.configured()
                && cleaning.has_come_to(asked, before, table),
            SetupStage::Registering { at, guild } => {
                &&& at == 0
                &&& guild.is_for(settings)
                &&& self.sorted_for(guild).is_of(guild)
                &&& self.sorted_for(guild).sets_up(guild, asked, table)
            },
            _ => false,
        }
    }

    /// Whether a setting up of a mirror that is set up waits for the answer to an operation.
    pub open spec fn finds_all_set_up(
        self,
        task: RegisterGuildSettings,
        settings: GuildSettings,
        asked: Action,
        table: Table,
    ) -> bool {
        &&& task.guilds@ == seq![settings]
        &&& !changes_mirror(asked)
        &&& match task.stage {
            SetupStage::Connecting => asked is Connect,
            SetupStage::Cleaning(cleaning) => cleaning.configured@ == self.configured()
                && cleaning.has_come_to(asked, table, table),
            SetupStage::Registering { at, guild } => {
                &&& at == 0
                &&& guild.is_for(settings)
                &&& self.sorted_for(guild).is_of(guild)
                &&& self.sorted_for(guild).finds_set_up(guild, asked, table)
            },
            _ => false,
        }
    }
}

/// Sorting a blacklist changes nothing about what is on it.
proof fn sorting_keeps_the_scene(scene: Scene, task: RegisterGuild, settings: GuildSettings)
    requires
        scene.has_settings(settings),
        task.is_for(settings),
    ensures
        scene.keeps_roles_apart() == scene.sorted_for(task).keeps_roles_apart(),
        forall|table: Table| #[trigger]
            scene.is_set_up(table) == scene.sorted_for(task).is_set_up(table),
{
    let sorted = scene.sorted_for(task);
    assert forall|entry: Blacklist| #[trigger] scene.blacklists.contains(entry)
        == sorted.blacklists.contains(entry) by {
        to_multiset_contains(scene.blacklists, entry);
        to_multiset_contains(sorted.blacklists, entry);
    }
    assert forall|row: MappingView| #[trigger] scene.is_clean_row(row) == sorted.is_clean_row(
        row,
    ) by {
        assert(is_barred(row, scene.blacklists) == is_barred(row, sorted.blacklists)) by {
            if is_barred(row, scene.blacklists) {
                let id = choose|id: u64|
                    #![trigger scene.blacklists.contains(Blacklist::Channel(id))]
                    scene.blacklists.contains(Blacklist::Channel(id)) && leads_from(row, id);
                assert(sorted.blacklists.contains(Blacklist::Channel(id)));
            }
            if is_barred(row, sorted.blacklists) {
                let id = choose|id: u64|
                    #![trigger sorted.blacklists.contains(Blacklist::Channel(id))]
                    sorted.blacklists.contains(Blacklist::Channel(id)) && leads_from(row, id);
                assert(scene.blacklists.contains(Blacklist::Channel(id)));
            }
        }
    }
    assert forall|table: Table| #[trigger] scene.is_set_up(table) == sorted.is_set_up(table) by {
        assert forall|channel: Channel| #[trigger]
            scene.settles_channel(table, channel) == sorted.settles_channel(table, channel) by {}
        assert forall|role: Role| #[trigger] scene.settles_role(table, role)
            == sorted.settles_role(table, role) by {}
        assert(scene.is_clean(table) == sorted.is_clean(table));
        assert(scene.settles_channels(table) == sorted.settles_channels(table));
        assert(scene.settles_roles(table) == sorted.settles_roles(table));
    }
}

/// The pairs of guilds that are configured are the one of the mirror.
proof fn one_pair_is_configured(scene: Scene, settings: GuildSettings)
    requires
        scene.has_settings(settings),
    ensures
        configured_pairs(seq![settings]) == scene.configured(),
{
    assert(configured_pairs(seq![settings]) =~= scene.configured());
}

/// What follows from a step of cleaning up.
proof fn after_cleaning_up(
    scene: Scene,
    settings: GuildSettings,
    task: RegisterGuildSettings,
    cleaning: CleanupUnusedMappings,
    cleaned: Progress<(), MappingsError>,
    before: Table,
    table: Table,
    next: RegisterGuildSettings,
    progress: Progress<(), MappingsError>,
)
    requires
        scene.has_settings(settings),
        scene.src_guild_id != scene.dest_guild_id,
        scene.keeps_roles_apart(),
        task.guilds@ == seq![settings],
        has_unique_origins(before),
        cleaning.configured@ == scene.configured(),
        match cleaned {
            Progress::Perform(action) => cleaning.has_come_to(action, before, table),
            Progress::Done(()) => table == before.filter(
                |row: MappingView| !is_unused(row, scene.configured()),
            ),
            Progress::Failed(_) => false,
        },
        task.after_cleaning(cleaning, cleaned, next, progress),
    ensures
        progress matches Progress::Perform(action) && scene.sets_all_up(
            next,
            settings,
            action,
            before,
            table,
        ),
{
    if cleaned is Done {
        if let SetupStage::Registering { at, guild } = next.stage {
            sorting_keeps_the_scene(scene, guild, settings);
        }
    }
}

/// What follows from a step of cleaning up where the mirror is set up: nothing is unused.
proof fn set_up_after_cleaning(
    scene: Scene,
    settings: GuildSettings,
    task: RegisterGuildSettings,
    cleaning: CleanupUnusedMappings,
    cleaned: Progress<(), MappingsError>,
    table: Table,
    next: RegisterGuildSettings,
    progress: Progress<(), MappingsError>,
)
    requires
        scene.has_settings(settings),
        scene.src_guild_id != scene.dest_guild_id,
        scene.keeps_roles_apart(),
        scene.is_set_up(table),
        task.guilds@ == seq![settings],
        cleaning.configured@ == scene.configured(),
        match cleaned {
            Progress::Perform(action) => cleaning.has_come_to(action, table, table),
            Progress::Done(()) => true,
            Progress::Failed(_) => false,
        },
        task.after_cleaning(cleaning, cleaned, next, progress),
    ensures
        progress matches Progress::Perform(action) && scene.finds_all_set_up(
            next,
            settings,
            action,
            table,
        ),
{
    if cleaned is Done {
        if let SetupStage::Registering { at, guild } = next.stage {
            sorting_keeps_the_scene(scene, guild, settings);
        }
    } else if let CleanupStage::Unregistering { pending, pair } = cleaning.stage {
        let asked = cleaned->Perform_0;
        let first = (pair.listing->Between_src_guild_id, pair.listing->Between_dest_guild_id);
        let base = choose|base: Table| #[trigger]
            pair.has_come_to(asked, base, table) && is_cleaned(
                table,
                base,
                cleaning.configured@,
                seq![first] + pending@,
            );
        if let Action::UnregisterMapping(mapping) = asked {
            assert(table.contains(mapping@));
            assert(is_between(mapping@, first.0, first.1));
            assert(is_unused(mapping@, cleaning.configured@));
            assert(scene.is_clean_row(mapping@));
        }
    }
}

/// One step of setting up for the first time.
proof fn setting_all_up_goes_on(
    scene: Scene,
    settings: GuildSettings,
    task: RegisterGuildSettings,
    asked: Action,
    before: Table,
    table: Table,
    reply: Reply,
    after: Table,
    next: RegisterGuildSettings,
    progress: Progress<(), MappingsError>,
)
    requires
        scene.has_settings(settings),
        scene.src_guild_id != scene.dest_guild_id,
        scene.keeps_roles_apart(),
        has_unique_origins(before),
        scene.sets_all_up(task, settings, asked, before, table),
        serves(table, asked, reply, after),
        scene.shows(asked, reply),
        task.awaits() is Some,
        reply.answers(task.awaits()->0),
        task.step(reply, next, progress),
    ensures
        match progress {
            Progress::Perform(action) => scene.sets_all_up(next, settings, action, before, after),
            Progress::Done(()) => scene.is_set_up(after),
            Progress::Failed(_) => true,
        },
{
    let ended = task.at(SetupStage::Ended);
    one_pair_is_configured(scene, settings);
    match task.stage {
        SetupStage::Connecting => {
            let (start, cleaning, cleaned) = choose|
                start: CleanupUnusedMappings,
                cleaning: CleanupUnusedMappings,
                cleaned,
            |
                #![trigger start.step(Reply::Begin, cleaning, cleaned)]
                {
                    &&& start.configured@ == configured_pairs(task.guilds@)
                    &&& start.stage == CleanupStage::Begin
                    &&& start.step(Reply::Begin, cleaning, cleaned)
                    &&& ended.after_cleaning(cleaning, cleaned, next, progress)
                };
            after_cleaning_up(
                scene,
                settings,
                ended,
                cleaning,
                cleaned,
                before,
                after,
                next,
                progress,
            );
        },
        SetupStage::Cleaning(start) => {
            let (cleaning, cleaned) = choose|cleaning: CleanupUnusedMappings, cleaned|
                #![trigger start.step(reply, cleaning, cleaned)]
                {
                    &&& start.step(reply, cleaning, cleaned)
                    &&& ended.after_cleaning(cleaning, cleaned, next, progress)
                };
            unique_origins_are_unique_keys(before);
            cleaning_goes_on(start, asked, before, table, reply, after, cleaning, cleaned);
            after_cleaning_up(
                scene,
                settings,
                ended,
                cleaning,
                cleaned,
                before,
                after,
                next,
                progress,
            );
        },
        SetupStage::Registering { at, guild: start } => {
            let (guild, registered) = choose|guild: RegisterGuild, registered|
                #![trigger start.step(reply, guild, registered)]
                {
                    &&& start.step(reply, guild, registered)
                    &&& ended.after_guild(at, guild, registered, next, progress)
                };
            let sorted = scene.sorted_for(start);
            setting_up_goes_on(sorted, start, asked, table, reply, after, guild, registered);
            sorting_keeps_the_scene(scene, start, settings);
            assert(scene.sorted_for(guild) == sorted);
            assert(scene.is_set_up(after) == sorted.is_set_up(after));
        },
        _ => {},
    }
}

/// One step of setting up a mirror that is set up.
proof fn finding_all_set_up_goes_on(
    scene: Scene,
    settings: GuildSettings,
    task: RegisterGuildSettings,
    asked: Action,
    table: Table,
    reply: Reply,
    after: Table,
    next: RegisterGuildSettings,
    progress: Progress<(), MappingsError>,
)
    requires
        scene.has_settings(settings),
        scene.src_guild_id != scene.dest_guild_id,
        scene.keeps_roles_apart(),
        has_unique_keys(table),
        scene.is_set_up(table),
        scene.finds_all_set_up(task, settings, asked, table),
        serves(table, asked, reply, after),
        scene.shows(asked, reply),
        task.awaits() is Some,
        reply.answers(task.awaits()->0),
        task.step(reply, next, progress),
    ensures
        after == table,
        match progress {
            Progress::Perform(action) => scene.finds_all_set_up(next, settings, action, table),
            Progress::Done(()) => true,
            Progress::Failed(_) => false,
        },
{
    let ended = task.at(SetupStage::Ended);
    one_pair_is_configured(scene, settings);
    match task.stage {
        SetupStage::Connecting => {
            let (start, cleaning, cleaned) = choose|
                start: CleanupUnusedMappings,
                cleaning: CleanupUnusedMappings,
                cleaned,
            |
                #![trigger start.step(Reply::Begin, cleaning, cleaned)]
                {
                    &&& start.configured@ == configured_pairs(task.guilds@)
                    &&& start.stage == CleanupStage::Begin
                    &&& start.step(Reply::Begin, cleaning, cleaned)
                    &&& ended.after_cleaning(cleaning, cleaned, next, progress)
                };
            set_up_after_cleaning(scene, settings, ended, cleaning, cleaned, table, next, progress);
        },
        SetupStage::Cleaning(start) => {
            let (cleaning, cleaned) = choose|cleaning: CleanupUnusedMappings, cleaned|
                #![trigger start.step(reply, cleaning, cleaned)]
                {
                    &&& start.step(reply, cleaning, cleaned)
                    &&& ended.after_cleaning(cleaning, cleaned, next, progress)
                };
            cleaning_goes_on(start, asked, table, table, reply, after, cleaning, cleaned);
            set_up_after_cleaning(scene, settings, ended, cleaning, cleaned, table, next, progress);
        },
        SetupStage::Registering { at, guild: start } => {
            let (guild, registered) = choose|guild: RegisterGuild, registered|
                #![trigger start.step(reply, guild, registered)]
                {
                    &&& start.step(reply, guild, registered)
                    &&& ended.after_guild(at, guild, registered, next, progress)
                };
            let sorted = scene.sorted_for(start);
            sorting_keeps_the_scene(scene, start, settings);
            assert(scene.is_set_up(table) == sorted.is_set_up(table));
            finding_set_up_goes_on(sorted, start, asked, table, reply, after, guild, registered);
            assert(scene.sorted_for(guild) == sorted);
        },
        _ => {},
    }
}

proof fn set_up_to(
    tasks: Seq<RegisterGuildSettings>,
    replies: Seq<Reply>,
    progress: Seq<Progress<(), MappingsError>>,
    tables: Seq<Table>,
    settings: GuildSettings,
    scene: Scene,
    k: int,
)
    requires
        is_run(tasks, replies, progress),
        is_served(replies, progress, tables),
        scene.is_shown(replies, progress),
        scene.begins(tasks[0], settings),
        has_unique_origins(tables[0]),
        0 <= k < replies.len(),
    ensures
        match progress[k] {
            Progress::Perform(action) => scene.sets_all_up(
                tasks[k + 1],
                settings,
                action,
                tables[0],
                tables[k],
            ),
            Progress::Done(()) => scene.is_set_up(tables[k]),
            Progress::Failed(_) => true,
        },
    decreases k,
{
    let reply = replies[k];
    if k > 0 {
        set_up_to(tasks, replies, progress, tables, settings, scene, k - 1);
        if !(progress[k - 1] is Perform) {
            runs_end(tasks, replies, progress, k - 1);
        }
        setting_all_up_goes_on(
            scene,
            settings,
            tasks[k],
            progress[k - 1]->Perform_0,
            tables[0],
            tables[k - 1],
            reply,
            tables[k],
            tasks[k + 1],
            progress[k],
        );
    }
}

proof fn found_set_up_to(
    tasks: Seq<RegisterGuildSettings>,
    replies: Seq<Reply>,
    progress: Seq<Progress<(), MappingsError>>,
    tables: Seq<Table>,
    settings: GuildSettings,
    scene: Scene,
    k: int,
)
    requires
        is_run(tasks, replies, progress),
        is_served(replies, progress, tables),
        scene.is_shown(replies, progress),
        scene.begins(tasks[0], settings),
        has_unique_keys(tables[0]),
        scene.is_set_up(tables[0]),
        0 <= k < replies.len(),
    ensures
        tables[k] == tables[0],
        match progress[k] {
            Progress::Perform(action) => scene.finds_all_set_up(
                tasks[k + 1],
                settings,
                action,
                tables[0],
            ),
            Progress::Done(()) => true,
            Progress::Failed(_) => false,
        },
    decreases k,
{
    let reply = replies[k];
    if k > 0 {
        found_set_up_to(tasks, replies, progress, tables, settings, scene, k - 1);
        if !(progress[k - 1] is Perform) {
            runs_end(tasks, replies, progress, k - 1);
        }
        finding_all_set_up_goes_on(
            scene,
            settings,
            tasks[k],
            progress[k - 1]->Perform_0,
            tables[0],
            reply,
            tables[k],
            tasks[k + 1],
            progress[k],
        );
    }
}

/// Setting up a mirror sets it up: where nothing fails, only mappings between its guilds are
/// left, none of them of a blacklisted channel, and every channel, and every role where roles
/// are mirrored, is registered, blacklisted or never mirrored.
pub proof fn setting_up_settles(
    tasks: Seq<RegisterGuildSettings>,
    replies: Seq<Reply>,
    progress: Seq<Progress<(), MappingsError>>,
    tables: Seq<Table>,
    settings: GuildSettings,
    scene: Scene,
)
    requires
        is_run(tasks, replies, progress),
        is_served(replies, progress, tables),
        scene.is_shown(replies, progress),
        scene.begins(tasks[0], settings),
        has_unique_origins(tables[0]),
        replies.len() > 0,
        progress.last() is Done,
    ensures
        scene.is_set_up(tables.last()),
{
    set_up_to(tasks, replies, progress, tables, settings, scene, replies.len() - 1);
}

/// Setting up a mirror that is set up changes nothing: where no operation fails, the setting up
/// does not fail, creates no channel and no role, registers and unregisters nothing, and leaves
/// the table as it is.
pub proof fn set_up_mirrors_are_left_alone(
    tasks: Seq<RegisterGuildSettings>,
    replies: Seq<Reply>,
    progress: Seq<Progress<(), MappingsError>>,
    tables: Seq<Table>,
    settings: GuildSettings,
    scene: Scene,
    k: int,
)
    requires
        is_run(tasks, replies, progress),
        is_served(replies, progress, tables),
        scene.is_shown(replies, progress),
        scene.begins(tasks[0], settings),
        has_unique_keys(tables[0]),
        scene.is_set_up(tables[0]),
        0 <= k < replies.len(),
    ensures
        progress[k] matches Progress::Perform(action) ==> !changes_mirror(action),
        !(progress[k] is Failed),
        tables[k] == tables[0],
{
    found_set_up_to(tasks, replies, progress, tables, settings, scene, k);
}

/// Setting up a mirror a second time, with nothing changed since, changes nothing: it does not
/// fail, creates no channel and no role, registers and unregisters nothing, and leaves the table
/// as it is.
pub proof fn setting_up_again_changes_nothing(
    first: Seq<RegisterGuildSettings>,
    first_replies: Seq<Reply>,
    first_progress: Seq<Progress<(), MappingsError>>,
    first_tables: Seq<Table>,
    second: Seq<RegisterGuildSettings>,
    second_replies: Seq<Reply>,
    second_progress: Seq<Progress<(), MappingsError>>,
    second_tables: Seq<Table>,
    settings: GuildSettings,
    scene: Scene,
    k: int,
)
    requires
        is_run(first, first_replies, first_progress),
        is_served(first_replies, first_progress, first_tables),
        scene.is_shown(first_replies, first_progress),
        scene.begins(first[0], settings),
        has_unique_origins(first_tables[0]),
        first_replies.len() > 0,
        first_progress.last() is Done,
        is_run(second, second_replies, second_progress),
        is_served(second_replies, second_progress, second_tables),
        scene.is_shown(second_replies, second_progress),
        scene.begins(second[0], settings),
        second_tables[0] == first_tables.last(),
        0 <= k < second_replies.len(),
    ensures
        second_progress[k] matches Progress::Perform(action) ==> !changes_mirror(action),
        !(second_progress[k] is Failed),
        second_tables[k] == first_tables.last(),
{
    setting_up_settles(first, first_replies, first_progress, first_tables, settings, scene);
    unique_origins_are_unique_keys(first_tables[0]);
    keys_stay_unique_in_runs(
        first,
        first_replies,
        first_progress,
        first_tables,
        first_replies.len() - 1,
    );
    set_up_mirrors_are_left_alone(
        second,
        second_replies,
        second_progress,
        second_tables,
        settings,
        scene,
        k,
    );
}

} // verus!
