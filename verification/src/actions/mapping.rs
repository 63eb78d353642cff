//! What is asked of the table of mappings, and how its rows are read.
use crate::keys::{be_bytes, be_value, id_key, is_id_key, key_value};
use crate::model::{data_view, MappingView};
use vstd::prelude::*;

verus! {

/// A question for one mapping: the keys, of those that are given, that it must have.
#[derive(Debug)]
pub struct MappingQuery {
    pub orig_id: Option<Vec<u8>>,
    pub ref_id: Option<Vec<u8>>,
}

impl MappingQuery {
    /// Whether a mapping is an answer.
    pub open spec fn selects(self, mapping: MappingView) -> bool {
        &&& self.orig_id matches Some(key) ==> key@ == mapping.orig_id
        &&& self.ref_id matches Some(key) ==> key@ == mapping.ref_id
    }
}

/// A question for all mappings between two guilds.
#[derive(Debug)]
pub struct GuildPairQuery {
    pub orig_guild_id: Vec<u8>,
    pub ref_guild_id: Vec<u8>,
}

impl GuildPairQuery {
    /// Whether a mapping is among the answers.
    pub open spec fn selects(self, mapping: MappingView) -> bool {
        self.orig_guild_id@ == mapping.orig_guild_id && self.ref_guild_id@ == mapping.ref_guild_id
    }
}

/// A question for all mappings into a guild, whatever guild they lead from.
#[derive(Debug)]
pub struct GuildQuery {
    pub ref_guild_id: Vec<u8>,
}

impl GuildQuery {
    /// Whether a mapping is among the answers.
    pub open spec fn selects(self, mapping: MappingView) -> bool {
        self.ref_guild_id@ == mapping.ref_guild_id
    }
}

/// The key of an identifier, where there is one.
fn optional_key(id: Option<u64>) -> (key: Option<Vec<u8>>)
    ensures
        data_view(key) == match id {
            Some(id) => Some(be_bytes(id)),
            None => None,
        },
{
    match id {
        Some(id) => Some(id_key(id)),
        None => None,
    }
}

/// Asks for one mapping, by what it leads from, by what it leads to, or by both.
pub fn get_mapping(orig_id: Option<u64>, ref_id: Option<u64>) -> (query: MappingQuery)
    ensures
        data_view(query.orig_id) == match orig_id {
            Some(id) => Some(be_bytes(id)),
            None => None,
        },
        data_view(query.ref_id) == match ref_id {
            Some(id) => Some(be_bytes(id)),
            None => None,
        },
{
    MappingQuery { orig_id: optional_key(orig_id), ref_id: optional_key(ref_id) }
}

/// Asks for all mappings between two guilds.
pub fn get_mappings(orig_guild_id: u64, ref_guild_id: u64) -> (query: GuildPairQuery)
    ensures
        query.orig_guild_id@ == be_bytes(orig_guild_id),
        query.ref_guild_id@ == be_bytes(ref_guild_id),
{
    GuildPairQuery { orig_guild_id: id_key(orig_guild_id), ref_guild_id: id_key(ref_guild_id) }
}

/// Asks for all mappings into a guild, whatever guild they lead from.
pub fn get_mappings_into(ref_guild_id: u64) -> (query: GuildQuery)
    ensures
        query.ref_guild_id@ == be_bytes(ref_guild_id),
{
    GuildQuery { ref_guild_id: id_key(ref_guild_id) }
}

/// Whether two guilds can be read from a row.
pub open spec fn is_guild_row(row: (Vec<u8>, Vec<u8>)) -> bool {
    is_id_key(row.0@) && is_id_key(row.1@)
}

/// The guilds between which mappings are registered, one pair for each row.
pub open spec fn registered_guilds(rows: Seq<(Vec<u8>, Vec<u8>)>) -> Seq<(u64, u64)> {
    rows.map_values(
        |row: (Vec<u8>, Vec<u8>)| (be_value(row.0@) as u64, be_value(row.1@) as u64),
    )
}

/// The guilds between which mappings are registered, one pair for each row.
pub fn get_registered_guilds(rows: &Vec<(Vec<u8>, Vec<u8>)>) -> (guilds: Vec<(u64, u64)>)
    requires
        forall|i: int| 0 <= i < rows@.len() ==> is_guild_row(#[trigger] rows@[i]),
    ensures
        guilds@ == registered_guilds(rows@),
        forall|i: int|
            0 <= i < rows@.len() ==> (#[trigger] guilds@[i]).0 == be_value(rows@[i].0@)
                && guilds@[i].1 == be_value(rows@[i].1@),
{
    let mut guilds: Vec<(u64, u64)> = Vec::new();
    for i in 0..rows.len()
        invariant
            forall|j: int| 0 <= j < rows@.len() ==> is_guild_row(#[trigger] rows@[j]),
            guilds@.len() == i,
            forall|j: int|
                0 <= j < i ==> (#[trigger] guilds@[j]).0 == be_value(rows@[j].0@) && guilds@[j].1
                    == be_value(rows@[j].1@),
    {
        assert(is_guild_row(rows@[i as int]));
        guilds.push((key_value(&rows[i].0), key_value(&rows[i].1)));
    }
    assert(guilds@ =~= registered_guilds(rows@));
    guilds
}

/// A mapping is an answer to the question for what it leads from, and to no question for
/// anything else.
pub proof fn lookup_finds_what_was_registered(
    query: MappingQuery,
    asked: u64,
    orig: u64,
    reference: u64,
    orig_guild: u64,
    ref_guild: u64,
)
    requires
        data_view(query.orig_id) == Some(be_bytes(asked)),
        query.ref_id is None,
    ensures
        query.selects(MappingView::between(orig, reference, orig_guild, ref_guild)) <==> asked
            == orig,
{
    if be_bytes(asked) == be_bytes(orig) {
        crate::keys::be_bytes_injective(asked, orig);
    }
}

/// A mapping is among the answers for its own pair of guilds, and for no other pair.
pub proof fn guild_lookup_finds_what_was_registered(
    query: GuildPairQuery,
    asked_orig: u64,
    asked_ref: u64,
    orig: u64,
    reference: u64,
    orig_guild: u64,
    ref_guild: u64,
)
    requires
        query.orig_guild_id@ == be_bytes(asked_orig),
        query.ref_guild_id@ == be_bytes(asked_ref),
    ensures
        query.selects(MappingView::between(orig, reference, orig_guild, ref_guild)) <==> (
        asked_orig == orig_guild && asked_ref == ref_guild),
{
    if be_bytes(asked_orig) == be_bytes(orig_guild) {
        crate::keys::be_bytes_injective(asked_orig, orig_guild);
    }
    if be_bytes(asked_ref) == be_bytes(ref_guild) {
        crate::keys::be_bytes_injective(asked_ref, ref_guild);
    }
}

/// A mapping is among the answers for the guild that it leads into, whatever guild it leads
/// from, and for no other guild.
pub proof fn destination_lookup_finds_what_was_registered(
    query: GuildQuery,
    asked: u64,
    orig: u64,
    reference: u64,
    orig_guild: u64,
    ref_guild: u64,
)
    requires
        query.ref_guild_id@ == be_bytes(asked),
    ensures
        query.selects(MappingView::between(orig, reference, orig_guild, ref_guild)) <==> asked
            == ref_guild,
{
    if be_bytes(asked) == be_bytes(ref_guild) {
        crate::keys::be_bytes_injective(asked, ref_guild);
    }
}

} // verus!
