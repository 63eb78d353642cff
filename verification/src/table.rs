//! The table of mappings, and what is answered from it.
use crate::actions::mapping::{GuildPairQuery, GuildQuery, MappingQuery};
use crate::keys::be_bytes;
use crate::model::{data_view, IdMapping, MappingView};
use crate::operation::{is_run, runs_end, Action, Progress, Reply, Task};
use vstd::prelude::*;

verus! {

/// The mappings that are registered.
pub type Table = Set<MappingView>;

/// Whether no two mappings have the same key.
pub open spec fn has_unique_keys(table: Table) -> bool {
    forall|a: MappingView, b: MappingView|
        #![trigger table.contains(a), table.contains(b)]
        table.contains(a) && table.contains(b) && a.primary_key() == b.primary_key() ==> a == b
}

/// Whether no two mappings lead from the same thing.
pub open spec fn has_unique_origins(table: Table) -> bool {
    forall|a: MappingView, b: MappingView|
        #![trigger table.contains(a), table.contains(b)]
        table.contains(a) && table.contains(b) && a.orig_id == b.orig_id ==> a == b
}

/// Whether a mapping leads from the given thing.
pub open spec fn leads_from(mapping: MappingView, orig_id: u64) -> bool {
    mapping.orig_id == be_bytes(orig_id)
}

/// Whether a mapping leads from one guild into another.
pub open spec fn is_between(mapping: MappingView, src_guild_id: u64, dest_guild_id: u64) -> bool {
    mapping.orig_guild_id == be_bytes(src_guild_id) && mapping.ref_guild_id == be_bytes(
        dest_guild_id,
    )
}

/// Whether a mapping leads into a guild.
pub open spec fn is_into(mapping: MappingView, dest_guild_id: u64) -> bool {
    mapping.ref_guild_id == be_bytes(dest_guild_id)
}

/// Whether something is registered as mirrored.
pub open spec fn is_registered(table: Table, orig_id: u64) -> bool {
    exists|row: MappingView| #[trigger] table.contains(row) && leads_from(row, orig_id)
}

/// The table without the mapping that has the key of the given one.
pub open spec fn without(table: Table, mapping: MappingView) -> Table {
    table.filter(|row: MappingView| row.primary_key() != mapping.primary_key())
}

/// A mapping once it was updated with another one: its key stays, the guilds are those of the
/// other one, and so are its objects where the other one has any.
pub open spec fn updated(row: MappingView, new_mapping: MappingView) -> MappingView {
    MappingView {
        orig_guild_id: new_mapping.orig_guild_id,
        ref_guild_id: new_mapping.ref_guild_id,
        src_mapping_data: match new_mapping.src_mapping_data {
            Some(data) => Some(data),
            None => row.src_mapping_data,
        },
        dest_mapping_data: match new_mapping.dest_mapping_data {
            Some(data) => Some(data),
            None => row.dest_mapping_data,
        },
        ..row
    }
}

/// Whether some mappings are those of the table that are asked for.
pub open spec fn lists(
    table: Table,
    mappings: Seq<IdMapping>,
    asked: spec_fn(MappingView) -> bool,
) -> bool {
    &&& forall|i: int|
        0 <= i < mappings.len() ==> table.contains((#[trigger] mappings[i])@) && asked(
            mappings[i]@,
        )
    &&& forall|row: MappingView| #[trigger]
        table.contains(row) && asked(row) ==> exists|i: int|
            0 <= i < mappings.len() && (#[trigger] mappings[i])@ == row
}

/// Whether some rows are the guilds between which the table has mappings.
pub open spec fn lists_guilds(table: Table, rows: Seq<(Vec<u8>, Vec<u8>)>) -> bool {
    &&& forall|i: int|
        0 <= i < rows.len() ==> exists|row: MappingView| #[trigger]
            table.contains(row) && row.orig_guild_id == (#[trigger] rows[i]).0@
                && row.ref_guild_id == rows[i].1@
    &&& forall|row: MappingView| #[trigger]
        table.contains(row) ==> exists|i: int|
            0 <= i < rows.len() && (#[trigger] rows[i]).0@ == row.orig_guild_id && rows[i].1@
                == row.ref_guild_id
}

/// Whether an operation that succeeds is answered from the table, and leaves the table
/// `after`. Operations on the service and the clock leave it as it is.
pub open spec fn serves(table: Table, action: Action, reply: Reply, after: Table) -> bool {
    match (action, reply) {
        (_, Reply::Failed(_)) => false,
        (Action::GetMapping { orig_id }, Reply::Mapping(found)) => after == table && finds(
            table,
            orig_id,
            found,
        ),
        (Action::FindMapping { orig_id }, Reply::Mapping(found)) => after == table && finds(
            table,
            orig_id,
            found,
        ),
        (Action::RegisterMapping(mapping), Reply::Done) => {
            &&& forall|row: MappingView| #[trigger]
                table.contains(row) ==> row.primary_key() != mapping@.primary_key()
            &&& after == table.insert(mapping@)
        },
        (Action::UnregisterMapping(mapping), Reply::Done) => after == without(table, mapping@),
        (Action::UpdateMapping { mapping, new_mapping }, Reply::Done) => if exists|
            row: MappingView,
        | #[trigger] table.contains(row) && row.primary_key() == mapping@.primary_key() {
            exists|row: MappingView|
                {
                    &&& #[trigger] table.contains(row)
                    &&& row.primary_key() == mapping@.primary_key()
                    &&& after == without(table, mapping@).insert(updated(row, new_mapping@))
                }
        } else {
            after == table
        },
        (
            Action::GetMappings { orig_guild_id, ref_guild_id },
            Reply::Mappings(mappings),
        ) => after == table && lists(
            table,
            mappings@,
            |row: MappingView| is_between(row, orig_guild_id, ref_guild_id),
        ),
        (Action::GetMappingsInto { ref_guild_id }, Reply::Mappings(mappings)) => after == table
            && lists(table, mappings@, |row: MappingView| is_into(row, ref_guild_id)),
        (Action::GetRegisteredGuilds, Reply::GuildRows(rows)) => after == table && lists_guilds(
            table,
            rows@,
        ),
        _ => after == table,
    }
}

/// Whether a lookup finds a mapping that leads from a thing, or finds none where there is
/// none.
pub open spec fn finds(table: Table, orig_id: u64, found: Option<IdMapping>) -> bool {
    match found {
        Some(mapping) => table.contains(mapping@) && leads_from(mapping@, orig_id),
        None => !is_registered(table, orig_id),
    }
}

/// Whether every operation succeeds and is answered from the table, which is `tables[i]` once
/// answer `i` was given.
pub open spec fn is_served<T, E>(
    replies: Seq<Reply>,
    progress: Seq<Progress<T, E>>,
    tables: Seq<Table>,
) -> bool {
    &&& tables.len() == replies.len()
    &&& forall|i: int|
        #![trigger replies[i]]
        0 < i < replies.len() ==> match progress[i - 1] {
            Progress::Perform(action) => serves(tables[i - 1], action, replies[i], tables[i]),
            _ => true,
        }
}

/// Mappings that lead from different things have different keys.
pub proof fn unique_origins_are_unique_keys(table: Table)
    requires
        has_unique_origins(table),
    ensures
        has_unique_keys(table),
{
}

/// No operation gives two mappings the same key.
pub proof fn keys_stay_unique(table: Table, action: Action, reply: Reply, after: Table)
    requires
        has_unique_keys(table),
        serves(table, action, reply, after),
    ensures
        has_unique_keys(after),
{
}

/// While a task is run no two mappings get the same key.
pub proof fn keys_stay_unique_in_runs<T: Task>(
    tasks: Seq<T>,
    replies: Seq<Reply>,
    progress: Seq<Progress<T::Output, T::Error>>,
    tables: Seq<Table>,
    k: int,
)
    requires
        is_run(tasks, replies, progress),
        is_served(replies, progress, tables),
        has_unique_keys(tables[0]),
        0 <= k < replies.len(),
    ensures
        has_unique_keys(tables[k]),
    decreases k,
{
    if k > 0 {
        keys_stay_unique_in_runs(tasks, replies, progress, tables, k - 1);
        let reply = replies[k];
        if let Progress::Perform(action) = progress[k - 1] {
            keys_stay_unique(tables[k - 1], action, reply, tables[k]);
        } else {
            runs_end(tasks, replies, progress, k - 1);
        }
    }
}

/// The table is served by the questions that are asked of it: a lookup selects the mappings that
/// lead from a thing, and a listing those between two guilds, or into one.
pub proof fn questions_select_what_is_served(
    row: MappingView,
    lookup: MappingQuery,
    orig_id: u64,
    between: GuildPairQuery,
    orig_guild_id: u64,
    into: GuildQuery,
    ref_guild_id: u64,
)
    requires
        data_view(lookup.orig_id) == Some(be_bytes(orig_id)),
        lookup.ref_id is None,
        between.orig_guild_id@ == be_bytes(orig_guild_id),
        between.ref_guild_id@ == be_bytes(ref_guild_id),
        into.ref_guild_id@ == be_bytes(ref_guild_id),
    ensures
        lookup.selects(row) <==> leads_from(row, orig_id),
        between.selects(row) <==> is_between(row, orig_guild_id, ref_guild_id),
        into.selects(row) <==> is_into(row, ref_guild_id),
{
}

/// An update registers nothing and unregisters nothing.
pub proof fn updates_keep_what_is_registered(
    table: Table,
    mapping: IdMapping,
    new_mapping: IdMapping,
    after: Table,
    orig_id: u64,
)
    requires
        serves(table, Action::UpdateMapping { mapping, new_mapping }, Reply::Done, after),
    ensures
        is_registered(after, orig_id) <==> is_registered(table, orig_id),
{
    if exists|row: MappingView| #[trigger]
        table.contains(row) && row.primary_key() == mapping@.primary_key() {
        let old_row = choose|row: MappingView|
            {
                &&& #[trigger] table.contains(row)
                &&& row.primary_key() == mapping@.primary_key()
                &&& after == without(table, mapping@).insert(updated(row, new_mapping@))
            };
        let new_row = updated(old_row, new_mapping@);
        assert(after.contains(new_row));
        if is_registered(table, orig_id) {
            let row = choose|row: MappingView| #[trigger]
                table.contains(row) && leads_from(row, orig_id);
            if row.primary_key() == mapping@.primary_key() {
                assert(leads_from(new_row, orig_id));
            } else {
                assert(after.contains(row));
            }
        }
        if is_registered(after, orig_id) {
            let row = choose|row: MappingView| #[trigger]
                after.contains(row) && leads_from(row, orig_id);
            if row == new_row {
                assert(leads_from(old_row, orig_id));
            } else {
                assert(table.contains(row));
            }
        }
    }
}

} // verus!
