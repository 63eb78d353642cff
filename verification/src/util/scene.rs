//! When a mirror is set up, and what mirroring channels does for that.
use crate::blacklist::Blacklist;
use crate::errors::MappingsError;
use crate::keys::be_bytes_injective;
use crate::model::{is_copy, Channel, MappingView, Role};
use crate::operation::{Action, Progress, Reply, Task};
use crate::table::{is_between, is_registered, leads_from, serves, Table};
use crate::util::channel_map::{is_listed, BuildChannelMap, MapStage};
use crate::util::cleanup::{is_barred, is_unused};
use crate::util::create::{
    creatable_channels, creating_channels_goes_on, is_skipped, mirrors_made, mirrors_made_lead_from,
    ChannelMap, CreateChannels,
};
use crate::util::filter::new_channels;
use crate::util::mirror::{is_placed, MirrorChannels, MirrorError, MirrorStage};
use crate::util::register::{
    are_mappings, filled, registering_continues, registering_goes_on, Record, RegisterMappings,
};
use crate::util::reposition::RepositionChannels;
use crate::util::roles::is_everyone;
use vstd::prelude::*;

verus! {

// ---------------------------------------------------------------------------
// When a mirror is set up
// ---------------------------------------------------------------------------

/// The settings of a mirror, and what the service shows of its guilds: whether the mirroring
/// guild is a community, and the channels and the roles of the mirrored one.
pub struct Scene {
    pub src_guild_id: u64,
    pub dest_guild_id: u64,
    pub clone_roles: bool,
    pub blacklists: Seq<Blacklist>,
    pub community: bool,
    pub channels: Seq<Channel>,
    pub roles: Seq<Role>,
}

impl Scene {
    /// The pairs of guilds that are configured: those of the mirror.
    pub open spec fn configured(self) -> Seq<(u64, u64)> {
        seq![(self.src_guild_id, self.dest_guild_id)]
    }

    /// Whether nothing is left to be done for a channel: it is blacklisted, it is passed over,
    /// or it is registered.
    pub open spec fn settles_channel(self, table: Table, channel: Channel) -> bool {
        ||| self.blacklists.contains(Blacklist::Channel(channel.id))
        ||| is_skipped(channel, self.community)
        ||| is_registered(table, channel.id)
    }

    /// Whether nothing is left to be done for a role: it is blacklisted, it is the one of
    /// every member, or it is registered.
    pub open spec fn settles_role(self, table: Table, role: Role) -> bool {
        ||| self.blacklists.contains(Blacklist::Role(role.id))
        ||| is_everyone(role)
        ||| is_registered(table, role.id)
    }

    /// Whether nothing is left to be done for any channel.
    pub open spec fn settles_channels(self, table: Table) -> bool {
        forall|i: int|
            0 <= i < self.channels.len() ==> self.settles_channel(
                table,
                #[trigger] self.channels[i],
            )
    }

    /// Whether nothing is left to be done for any role.
    pub open spec fn settles_roles(self, table: Table) -> bool {
        forall|i: int|
            0 <= i < self.roles.len() ==> self.settles_role(table, #[trigger] self.roles[i])
    }

    /// Whether a table holds only mappings between the guilds of the mirror, and none of a
    /// blacklisted channel.
    pub open spec fn is_clean(self, table: Table) -> bool {
        forall|row: MappingView| #[trigger]
            table.contains(row) ==> self.is_clean_row(row)
    }

    /// Whether a mapping is between the guilds of the mirror, and not one of a blacklisted
    /// channel.
    pub open spec fn is_clean_row(self, row: MappingView) -> bool {
        !is_barred(row, self.blacklists) && !is_unused(row, self.configured())
    }

    /// Whether the mirror is set up: nothing is left to be forgotten or to be registered.
    pub open spec fn is_set_up(self, table: Table) -> bool {
        &&& self.is_clean(table)
        &&& self.settles_channels(table)
        &&& self.clone_roles ==> self.settles_roles(table)
    }

    /// Whether no role that is mirrored has the identifier of a channel that is blacklisted.
    pub open spec fn keeps_roles_apart(self) -> bool {
        self.clone_roles ==> forall|i: int|
            0 <= i < self.roles.len() ==> self.keeps_role_apart(#[trigger] self.roles[i])
    }

    /// Whether a role is not mirrored, or does not have the identifier of a channel that is
    /// blacklisted.
    pub open spec fn keeps_role_apart(self, role: Role) -> bool {
        ||| self.blacklists.contains(Blacklist::Role(role.id))
        ||| is_everyone(role)
        ||| !self.blacklists.contains(Blacklist::Channel(role.id))
    }
}

/// Whether a table holds all that another one does.
pub open spec fn grows(before: Table, table: Table) -> bool {
    forall|row: MappingView| #[trigger] before.contains(row) ==> table.contains(row)
}

/// A mapping of something that is not blacklisted, between the guilds of a mirror, is clean.
pub(crate) proof fn clean_row(scene: Scene, row: MappingView, id: u64)
    requires
        leads_from(row, id),
        is_between(row, scene.src_guild_id, scene.dest_guild_id),
        !scene.blacklists.contains(Blacklist::Channel(id)),
    ensures
        scene.is_clean_row(row),
{
    if is_barred(row, scene.blacklists) {
        let other = choose|other: u64|
            #![trigger scene.blacklists.contains(Blacklist::Channel(other))]
            scene.blacklists.contains(Blacklist::Channel(other)) && leads_from(row, other);
        be_bytes_injective(id, other);
    }
    if is_unused(row, scene.configured()) {
        let (src, dest) = choose|src: u64, dest: u64|
            #![trigger is_between(row, src, dest)]
            is_between(row, src, dest) && !scene.configured().contains((src, dest));
        be_bytes_injective(src, scene.src_guild_id);
        be_bytes_injective(dest, scene.dest_guild_id);
        assert(scene.configured()[0] == (src, dest));
    }
}

// ---------------------------------------------------------------------------
// Registering what was made
// ---------------------------------------------------------------------------

/// Whether one of some records is a mapping of the given thing, where it is a mapping at all.
pub open spec fn records_thing(records: Seq<Record>, id: u64) -> bool {
    exists|j: int|
        0 <= j < records.len() && ((#[trigger] records[j]) is Ok ==> leads_from(
            records[j]->Ok_0@,
            id,
        ))
}

impl Scene {
    /// Whether some records are clean.
    pub open spec fn are_clean_records(self, records: Seq<Record>) -> bool {
        forall|j: int|
            0 <= j < records.len() ==> ((#[trigger] records[j]) is Ok ==> self.is_clean_row(
                records[j]->Ok_0@,
            ))
    }

    /// Whether every channel is settled, or is among some records.
    pub open spec fn records_channels(self, table: Table, records: Seq<Record>) -> bool {
        forall|i: int|
            0 <= i < self.channels.len() ==> self.settles_channel(
                table,
                #[trigger] self.channels[i],
            ) || records_thing(records, self.channels[i].id)
    }

    /// Whether every role is settled, or is among some records.
    pub open spec fn records_roles(self, table: Table, records: Seq<Record>) -> bool {
        forall|i: int|
            0 <= i < self.roles.len() ==> self.settles_role(table, #[trigger] self.roles[i])
                || records_thing(records, self.roles[i].id)
    }
}

/// What is registered stays registered while records are added.
pub(crate) proof fn filling_grows(scene: Scene, before: Table, records: Seq<Record>, n: int)
    requires
        scene.is_clean(before),
        scene.are_clean_records(records),
        0 <= n <= records.len(),
    ensures
        grows(before, filled(before, records, n)),
        scene.is_clean(filled(before, records, n)),
{
}

/// Once all records were added, what is among them is registered.
pub(crate) proof fn filled_registers(before: Table, records: Seq<Record>, id: u64)
    requires
        are_mappings(records, records.len() as int),
        records_thing(records, id),
    ensures
        is_registered(filled(before, records, records.len() as int), id),
{
    let j = choose|j: int|
        0 <= j < records.len() && ((#[trigger] records[j]) is Ok ==> leads_from(
            records[j]->Ok_0@,
            id,
        ));
    assert(filled(before, records, records.len() as int).contains(records[j]->Ok_0@));
}

/// What is settled stays settled while a table grows.
pub(crate) proof fn settled_channels_stay(scene: Scene, before: Table, table: Table)
    requires
        grows(before, table),
    ensures
        scene.settles_channels(before) ==> scene.settles_channels(table),
        forall|channel: Channel|
            scene.settles_channel(before, channel) ==> #[trigger] scene.settles_channel(
                table,
                channel,
            ),
        forall|role: Role|
            scene.settles_role(before, role) ==> #[trigger] scene.settles_role(table, role),
{
    assert forall|id: u64| is_registered(before, id) implies #[trigger] is_registered(
        table,
        id,
    ) by {
        let row = choose|row: MappingView| #[trigger] before.contains(row) && leads_from(row, id);
        assert(table.contains(row));
    }
}

// ---------------------------------------------------------------------------
// Mirroring channels
// ---------------------------------------------------------------------------

/// Whether a mirroring of channels waits for the answer to an operation that leaves the table
/// as it is: all that was to be created was created and registered.
pub open spec fn is_quiet(task: MirrorChannels, asked: Action) -> bool {
    match task.stage {
        MirrorStage::Listing { .. } => asked is GetGuildChannels,
        MirrorStage::Mapping { mapping } => {
            &&& asked is GetMapping
            &&& mapping.stage matches MapStage::LookingUp { failed, .. }
            &&& failed is None
        },
        MirrorStage::Repositioning { .. } => asked is MoveChannel || asked is Sleep
            || asked is PositionChannels,
        _ => false,
    }
}

/// What a quiet mirroring comes to: another quiet one, or its end.
pub open spec fn stays_quiet(
    task: MirrorChannels,
    next: MirrorChannels,
    progress: Progress<(), MirrorError>,
) -> bool {
    &&& next.src_guild_id == task.src_guild_id
    &&& next.dest_guild == task.dest_guild
    &&& match progress {
        Progress::Perform(action) => is_quiet(next, action),
        Progress::Done(()) => true,
        Progress::Failed(_) => false,
    }
}

/// Putting channels in place is quiet.
proof fn placing_is_quiet(
    task: MirrorChannels,
    before: RepositionChannels,
    reply: Reply,
    repositioning: RepositionChannels,
    repositioned: Progress<(), MappingsError>,
    next: MirrorChannels,
    progress: Progress<(), MirrorError>,
)
    requires
        !(reply is Failed),
        before.step(reply, repositioning, repositioned),
        task.after_repositioning(repositioning, repositioned, next, progress),
    ensures
        stays_quiet(task, next, progress),
{
}

/// Finding out which channels mirror which is quiet.
proof fn mapping_is_quiet(
    task: MirrorChannels,
    before: BuildChannelMap,
    reply: Reply,
    mapping: BuildChannelMap,
    mapped: Progress<ChannelMap, MappingsError>,
    next: MirrorChannels,
    progress: Progress<(), MirrorError>,
)
    requires
        !(reply is Failed),
        before.stage matches MapStage::LookingUp { failed, .. } ==> failed is None,
        before.step(reply, mapping, mapped),
        task.after_mapping(mapping, mapped, next, progress),
    ensures
        stays_quiet(task, next, progress),
{
    if let Progress::Done(map) = mapped {
        let (placing, repositioning, repositioned) = choose|
            placing: RepositionChannels,
            repositioning: RepositionChannels,
            repositioned,
        |
            #![trigger placing.step(Reply::Begin, repositioning, repositioned)]
            {
                &&& placing.starts(task.dest_guild.id, map@)
                &&& placing.step(Reply::Begin, repositioning, repositioned)
                &&& task.after_repositioning(repositioning, repositioned, next, progress)
            };
        placing_is_quiet(task, placing, Reply::Begin, repositioning, repositioned, next, progress);
    }
}

/// A quiet mirroring leaves the table as it is, stays quiet and does not fail.
pub(crate) proof fn quiet_mirroring_goes_on(
    task: MirrorChannels,
    asked: Action,
    table: Table,
    reply: Reply,
    after: Table,
    next: MirrorChannels,
    progress: Progress<(), MirrorError>,
)
    requires
        is_quiet(task, asked),
        serves(table, asked, reply, after),
        task.awaits() is Some,
        reply.answers(task.awaits()->0),
        task.step(reply, next, progress),
    ensures
        after == table,
        stays_quiet(task, next, progress),
{
    let ended = task.at(MirrorStage::Ended);
    match task.stage {
        MirrorStage::Listing { src_channels, made } => {
            let placed = reply->Channels_0@.filter(
                |channel: Channel| is_placed(made@, channel),
            );
            let (before, mapping, mapped) = choose|
                before: BuildChannelMap,
                mapping: BuildChannelMap,
                mapped,
            |
                #![trigger before.step(Reply::Begin, mapping, mapped)]
                {
                    &&& before.dest_channels@ == placed
                    &&& before.stage == (MapStage::Begin { pending: src_channels })
                    &&& before.step(Reply::Begin, mapping, mapped)
                    &&& ended.after_mapping(mapping, mapped, next, progress)
                };
            mapping_is_quiet(ended, before, Reply::Begin, mapping, mapped, next, progress);
        },
        MirrorStage::Mapping { mapping: before } => {
            let (mapping, mapped) = choose|mapping: BuildChannelMap, mapped|
                #![trigger before.step(reply, mapping, mapped)]
                {
                    &&& before.step(reply, mapping, mapped)
                    &&& ended.after_mapping(mapping, mapped, next, progress)
                };
            mapping_is_quiet(ended, before, reply, mapping, mapped, next, progress);
        },
        MirrorStage::Repositioning { repositioning: before } => {
            let (repositioning, repositioned) = choose|
                repositioning: RepositionChannels,
                repositioned,
            |
                #![trigger before.step(reply, repositioning, repositioned)]
                {
                    &&& before.step(reply, repositioning, repositioned)
                    &&& ended.after_repositioning(repositioning, repositioned, next, progress)
                };
            placing_is_quiet(ended, before, reply, repositioning, repositioned, next, progress);
        },
        _ => {},
    }
}

impl Scene {
    /// Whether every channel is settled, or is among some that are new.
    pub open spec fn covers_channels(self, table: Table, new_channels: Seq<Channel>) -> bool {
        forall|i: int|
            0 <= i < self.channels.len() ==> self.settles_channel(
                table,
                #[trigger] self.channels[i],
            ) || is_listed(self.channels[i], new_channels)
    }

    /// Whether none of some channels is blacklisted.
    pub open spec fn are_free_channels(self, channels: Seq<Channel>) -> bool {
        forall|n: int|
            0 <= n < channels.len() ==> !self.blacklists.contains(
                Blacklist::Channel((#[trigger] channels[n]).id),
            )
    }

    /// Whether a mirroring of channels is one between the guilds of the mirror.
    pub open spec fn is_between_guilds(self, task: MirrorChannels) -> bool {
        &&& task.src_guild_id == self.src_guild_id
        &&& task.dest_guild.id == self.dest_guild_id
        &&& task.dest_guild.community() == self.community
    }

    /// Whether some channels are being registered, and with them all that are new.
    pub open spec fn registers_channels(
        self,
        registering: RegisterMappings,
        asked: Action,
        table: Table,
    ) -> bool {
        exists|base: Table|
            {
                &&& #[trigger] registering.has_come_to(asked, base, table)
                &&& self.is_clean(base)
                &&& self.are_clean_records(registering.records@)
                &&& self.records_channels(base, registering.records@)
            }
    }

    /// Whether a mirroring of channels waits for the answer to an operation, on the way to
    /// having all channels settled.
    pub open spec fn mirrors_channels(
        self,
        task: MirrorChannels,
        asked: Action,
        table: Table,
    ) -> bool {
        &&& self.is_between_guilds(task)
        &&& self.is_clean(table)
        &&& match task.stage {
            MirrorStage::Creating { creating, .. } => {
                &&& creating.community == self.community
                &&& exists|new_channels: Seq<Channel>, created: Seq<Channel>|
                    {
                        &&& #[trigger] creating.has_come_to(new_channels, created, asked)
                        &&& self.covers_channels(table, new_channels)
                        &&& self.are_free_channels(new_channels)
                    }
            },
            MirrorStage::Registering { registering, .. } => self.registers_channels(
                registering,
                asked,
                table,
            ),
            _ => is_quiet(task, asked) && self.settles_channels(table),
        }
    }

    /// Whether a mirroring of channels goes on, or has all channels settled.
    pub open spec fn has_mirrored(
        self,
        next: MirrorChannels,
        progress: Progress<(), MirrorError>,
        table: Table,
    ) -> bool {
        match progress {
            Progress::Perform(action) => self.mirrors_channels(next, action, table),
            Progress::Done(()) => self.is_clean(table) && self.settles_channels(table),
            Progress::Failed(_) => true,
        }
    }
}

/// What follows once some channels were registered.
proof fn after_registering_channels(
    scene: Scene,
    task: MirrorChannels,
    src_channels: Vec<Channel>,
    made: ChannelMap,
    registering: RegisterMappings,
    registered: Progress<(), MappingsError>,
    table: Table,
    next: MirrorChannels,
    progress: Progress<(), MirrorError>,
)
    requires
        scene.is_between_guilds(task),
        scene.is_clean(table),
        registered matches Progress::Perform(action) ==> scene.registers_channels(
            registering,
            action,
            table,
        ),
        registered is Done ==> scene.settles_channels(table),
        task.after_registering(src_channels, made, registering, registered, next, progress),
    ensures
        scene.has_mirrored(next, progress, table),
{
}

/// Every channel that is new and was not passed over has a record once it was created.
proof fn created_channels_are_recorded(
    scene: Scene,
    new_channels: Seq<Channel>,
    created: Seq<Channel>,
    made: Seq<(Channel, Channel)>,
    task: RegisterMappings,
    table: Table,
)
    requires
        scene.covers_channels(table, new_channels),
        scene.are_free_channels(new_channels),
        created.len() == creatable_channels(new_channels, scene.community).len(),
        made == mirrors_made(creatable_channels(new_channels, scene.community), created),
        task.registers_channels(made, (scene.src_guild_id, scene.dest_guild_id)),
    ensures
        scene.are_clean_records(task.records@),
        scene.records_channels(table, task.records@),
{
    let wanted = creatable_channels(new_channels, scene.community);
    let to_create = |channel: Channel| !is_skipped(channel, scene.community);
    let records = task.records@;
    mirrors_made_lead_from(wanted, created);
    assert forall|j: int| 0 <= j < records.len() && (#[trigger] records[j]) is Ok implies
        scene.is_clean_row(records[j]->Ok_0@) by {
        assert(wanted.contains(made[j].0));
        new_channels.lemma_filter_contains_rev(to_create, made[j].0);
        let n = choose|n: int| 0 <= n < new_channels.len() && new_channels[n] == made[j].0;
        assert(!scene.blacklists.contains(Blacklist::Channel(new_channels[n].id)));
        clean_row(scene, records[j]->Ok_0@, made[j].0.id);
    }
    assert forall|i: int| 0 <= i < scene.channels.len() implies scene.settles_channel(
        table,
        #[trigger] scene.channels[i],
    ) || records_thing(records, scene.channels[i].id) by {
        let channel = scene.channels[i];
        if !scene.settles_channel(table, channel) {
            let n = choose|n: int|
                0 <= n < new_channels.len() && is_copy(#[trigger] new_channels[n], channel);
            assert(!is_skipped(new_channels[n], scene.community));
            new_channels.lemma_filter_contains(to_create, n);
            let k = choose|k: int| 0 <= k < wanted.len() && wanted[k] == new_channels[n];
            let j = choose|j: int| 0 <= j < made.len() && (#[trigger] made[j]).0.id == wanted[k].id;
            assert(records[j] is Ok ==> leads_from(records[j]->Ok_0@, channel.id));
        }
    }
}

/// What follows from a step of the creation.
pub(crate) proof fn after_creating_channels(
    scene: Scene,
    task: MirrorChannels,
    src_channels: Vec<Channel>,
    new_channels: Seq<Channel>,
    created: Seq<Channel>,
    creating: CreateChannels,
    progress_made: Progress<ChannelMap, MappingsError>,
    table: Table,
    next: MirrorChannels,
    progress: Progress<(), MirrorError>,
)
    requires
        scene.is_between_guilds(task),
        scene.is_clean(table),
        scene.covers_channels(table, new_channels),
        scene.are_free_channels(new_channels),
        creating.community == scene.community,
        match progress_made {
            Progress::Perform(action) => creating.has_come_to(new_channels, created, action),
            Progress::Done(map) => {
                let wanted = creatable_channels(new_channels, scene.community);
                created.len() == wanted.len() && map@ == mirrors_made(wanted, created)
            },
            Progress::Failed(_) => true,
        },
        task.after_creating(src_channels, creating, progress_made, next, progress),
    ensures
        scene.has_mirrored(next, progress, table),
{
    if let Progress::Done(made) = progress_made {
        let (before, registering, registered) = choose|
            before: RegisterMappings,
            registering: RegisterMappings,
            registered,
        |
            #![trigger before.step(Reply::Begin, registering, registered)]
            {
                &&& before.registers_channels(made@, (task.src_guild_id, task.dest_guild.id))
                &&& before.step(Reply::Begin, registering, registered)
                &&& task.after_registering(
                    src_channels,
                    made,
                    registering,
                    registered,
                    next,
                    progress,
                )
            };
        let records = before.records@;
        created_channels_are_recorded(scene, new_channels, created, made@, before, table);
        assert(filled(table, records, 0) =~= table);
        registering_continues(before, 0, table, registering, registered);
        if let Progress::Perform(action) = registered {
            assert(registering.has_come_to(action, table, table));
        }
        after_registering_channels(
            scene,
            task,
            src_channels,
            made,
            registering,
            registered,
            table,
            next,
            progress,
        );
    }
}

/// One step of a mirroring of channels.
pub(crate) proof fn mirroring_goes_on(
    scene: Scene,
    task: MirrorChannels,
    asked: Action,
    table: Table,
    reply: Reply,
    after: Table,
    next: MirrorChannels,
    progress: Progress<(), MirrorError>,
)
    requires
        scene.mirrors_channels(task, asked, table),
        serves(table, asked, reply, after),
        task.awaits() is Some,
        reply.answers(task.awaits()->0),
        task.step(reply, next, progress),
    ensures
        grows(table, after),
        scene.has_mirrored(next, progress, after),
{
    let ended = task.at(MirrorStage::Ended);
    match task.stage {
        MirrorStage::Creating { src_channels, creating: before } => {
            let (new_channels, created) = choose|
                new_channels: Seq<Channel>,
                created: Seq<Channel>,
            |
                {
                    &&& #[trigger] before.has_come_to(new_channels, created, asked)
                    &&& scene.covers_channels(table, new_channels)
                    &&& scene.are_free_channels(new_channels)
                };
            let (creating, progress_made) = choose|creating: CreateChannels, progress_made|
                #![trigger before.step(reply, creating, progress_made)]
                {
                    &&& before.step(reply, creating, progress_made)
                    &&& ended.after_creating(src_channels, creating, progress_made, next, progress)
                };
            creating_channels_goes_on(
                before,
                new_channels,
                created,
                asked,
                reply,
                creating,
                progress_made,
            );
            let created = if before.stage is Creating {
                created.push(reply->Channel_0)
            } else {
                created
            };
            after_creating_channels(
                scene,
                ended,
                src_channels,
                new_channels,
                created,
                creating,
                progress_made,
                after,
                next,
                progress,
            );
        },
        MirrorStage::Registering { src_channels, made, registering: before } => {
            let base = choose|base: Table|
                {
                    &&& #[trigger] before.has_come_to(asked, base, table)
                    &&& scene.is_clean(base)
                    &&& scene.are_clean_records(before.records@)
                    &&& scene.records_channels(base, before.records@)
                };
            let (registering, registered) = choose|registering: RegisterMappings, registered|
                #![trigger before.step(reply, registering, registered)]
                {
                    &&& before.step(reply, registering, registered)
                    &&& ended.after_registering(
                        src_channels,
                        made,
                        registering,
                        registered,
                        next,
                        progress,
                    )
                };
            registering_goes_on(before, asked, base, table, reply, after, registering, registered);
            registering_settles_channels(scene, before, asked, base, table, reply, after);
            after_registering_channels(
                scene,
                ended,
                src_channels,
                made,
                registering,
                registered,
                after,
                next,
                progress,
            );
        },
        _ => {
            quiet_mirroring_goes_on(task, asked, table, reply, after, next, progress);
        },
    }
}

/// Registering one more channel keeps the table clean, and once all are registered every
/// channel is settled.
proof fn registering_settles_channels(
    scene: Scene,
    before: RegisterMappings,
    asked: Action,
    base: Table,
    table: Table,
    reply: Reply,
    after: Table,
)
    requires
        before.has_come_to(asked, base, table),
        scene.is_clean(base),
        scene.are_clean_records(before.records@),
        scene.records_channels(base, before.records@),
        serves(table, asked, reply, after),
        reply is Done,
    ensures
        grows(table, after),
        scene.is_clean(table),
        scene.is_clean(after),
        ({
            let n = before.records@.len() as int;
            are_mappings(before.records@, n) && after == filled(base, before.records@, n)
                ==> scene.settles_channels(after)
        }),
{
    let records = before.records@;
    let n = records.len() as int;
    filling_grows(scene, base, records, n);
    if are_mappings(records, n) && after == filled(base, records, n) {
        settled_channels_stay(scene, base, after);
        assert forall|i: int| 0 <= i < scene.channels.len() implies scene.settles_channel(
            after,
            #[trigger] scene.channels[i],
        ) by {
            if !scene.settles_channel(base, scene.channels[i]) {
                filled_registers(base, records, scene.channels[i].id);
            }
        }
    }
}

} // verus!
