//! What the operations are for, told of whole runs: what is asked for, in terms of what
//! happened and of what was answered.
use crate::config::GuildSettings;
use crate::handlers::event::{led_to, Event, HandleSingleEvent, SingleStage};
use crate::keys::{be_bytes, be_value};
use crate::model::{Encoded, IdMapping, MappingView, PermissionOverwrite};
use vstd::prelude::*;
use vstd::utf8::encode_utf8;

pub mod channels;
pub mod content;
pub mod creating;
pub mod edits;
pub mod events;
pub mod formatting;
pub mod messages;
pub mod roles;
pub mod setups;
pub mod things;

verus! {

/// Whether this is the handling of an event for one mirror at its beginning.
pub open spec fn begins(task: HandleSingleEvent, event: Event, settings: GuildSettings) -> bool {
    task == (HandleSingleEvent { task: led_to(event, settings), stage: SingleStage::Begin })
}

/// What a mapping leads to.
pub open spec fn mirror_id(mapping: IdMapping) -> u64 {
    be_value(mapping@.ref_id) as u64
}

/// Whether a mapping leads from one thing to another, in the given guilds.
pub open spec fn leads(
    mapping: MappingView,
    orig_id: u64,
    ref_id: u64,
    orig_guild_id: u64,
    ref_guild_id: u64,
) -> bool {
    &&& mapping.orig_id == be_bytes(orig_id)
    &&& mapping.ref_id == be_bytes(ref_id)
    &&& mapping.orig_guild_id == be_bytes(orig_guild_id)
    &&& mapping.ref_guild_id == be_bytes(ref_guild_id)
}

/// Whether a mapping keeps the texts of both sides.
pub open spec fn keeps(mapping: MappingView, src: Encoded, dest: Encoded) -> bool {
    &&& src is Ok
    &&& dest is Ok
    &&& mapping.src_mapping_data == Some(encode_utf8(src->Ok_0@))
    &&& mapping.dest_mapping_data == Some(encode_utf8(dest->Ok_0@))
}

/// Whether two lists of permissions are the same, or both absent.
pub open spec fn same_overwrites(
    a: Option<Vec<PermissionOverwrite>>,
    b: Option<Vec<PermissionOverwrite>>,
) -> bool {
    match (a, b) {
        (Some(a), Some(b)) => a@ == b@,
        (None, None) => true,
        _ => false,
    }
}

} // verus!
