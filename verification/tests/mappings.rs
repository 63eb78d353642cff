use guild_mirror::actions::mapping::{
    get_mapping, get_mappings, get_mappings_into, get_registered_guilds,
};
use guild_mirror::errors::DatabaseError;
use guild_mirror::keys::{id_key, is_valid_key, key_value};
use guild_mirror::model::{IdMapping, MappingData, Role};

fn role(id: u64, encoded: Result<String, String>) -> Role {
    Role {
        id,
        name: "r".to_string(),
        color: 0,
        hoist: false,
        mentionable: false,
        permissions: 0,
        position: 0,
        encoded,
    }
}

#[test]
fn keys_are_big_endian() {
    assert_eq!(id_key(0x0102030405060708), vec![1, 2, 3, 4, 5, 6, 7, 8]);
    assert_eq!(key_value(&vec![1, 2, 3, 4, 5, 6, 7, 8, 9]), 0x0102030405060708);
    assert_eq!(key_value(&id_key(u64::MAX)), u64::MAX);
}

#[test]
fn short_and_zero_keys_are_no_identifiers() {
    assert!(!is_valid_key(&vec![1, 2, 3]));
    assert!(!is_valid_key(&vec![0; 8]));
    assert!(is_valid_key(&vec![0, 0, 0, 0, 0, 0, 0, 1]));
}

#[test]
fn mapping_gives_back_its_identifiers() {
    let mapping = IdMapping::new(&1, &2, &3, &4);
    assert_eq!(mapping.orig_id(), 1);
    assert_eq!(mapping.ref_id(), 2);
    assert_eq!(mapping.orig_guild_id(), 3);
    assert_eq!(mapping.ref_guild_id(), 4);
    assert!(mapping.src_mapping_data.is_none() && mapping.dest_mapping_data.is_none());
}

#[test]
fn redirected_mapping_keeps_its_origin() {
    let mapping = IdMapping::new(&1, &2, &3, &4).set_ref_id(9);
    assert_eq!(mapping.orig_id(), 1);
    assert_eq!(mapping.ref_id(), 9);
    assert_eq!(mapping.ref_guild_id(), 4);
}

#[test]
fn objects_are_kept_as_text() {
    let src = MappingData::Role(role(1, Ok("{\"t\":\"Role\"}".to_string())));
    let mapping = IdMapping::new(&1, &2, &3, &4).set_src_mapping_data(src).unwrap();
    assert_eq!(mapping.src_mapping_data, Some(b"{\"t\":\"Role\"}".to_vec()));
    let dest = MappingData::Role(role(2, Ok("\u{e9}".to_string())));
    let mapping = mapping.set_dest_mapping_data(dest).unwrap();
    assert_eq!(mapping.dest_mapping_data, Some(vec![0xc3, 0xa9]));
    assert_eq!(mapping.orig_id(), 1);
    assert_eq!(mapping.ref_id(), 2);
}

#[test]
fn object_without_text_is_refused() {
    let src = MappingData::Role(role(1, Err("no text".to_string())));
    let refused = IdMapping::new(&1, &2, &3, &4).set_src_mapping_data(src);
    assert!(matches!(refused, Err(DatabaseError::Serialize(reason)) if reason == "no text"));
    let dest = MappingData::Role(role(1, Err("none".to_string())));
    let refused = IdMapping::new(&1, &2, &3, &4).set_dest_mapping_data(dest);
    assert!(matches!(refused, Err(DatabaseError::Serialize(reason)) if reason == "none"));
}

#[test]
fn only_readable_objects_are_handed_out() {
    let text = Ok("{}".to_string());
    let mapping = IdMapping::new(&1, &2, &3, &4)
        .set_dest_mapping_data(MappingData::Role(role(2, text)))
        .unwrap();
    let readable = Some(Ok(MappingData::Role(role(2, Ok("{}".to_string())))));
    let (src, dest) = mapping.mapping_data(None, readable);
    assert!(src.is_none());
    assert!(matches!(dest, Some(MappingData::Role(role)) if role.id == 2));
    let (_, dest) = mapping.mapping_data(None, Some(Err("broken".to_string())));
    assert!(dest.is_none());
}

#[test]
fn lookups_ask_by_key() {
    let query = get_mapping(Some(1), None);
    assert_eq!(query.orig_id, Some(vec![0, 0, 0, 0, 0, 0, 0, 1]));
    assert_eq!(query.ref_id, None);
    let query = get_mapping(None, Some(258));
    assert_eq!(query.orig_id, None);
    assert_eq!(query.ref_id, Some(vec![0, 0, 0, 0, 0, 0, 1, 2]));
    let query = get_mappings(3, 4);
    assert_eq!(query.orig_guild_id, vec![0, 0, 0, 0, 0, 0, 0, 3]);
    assert_eq!(query.ref_guild_id, vec![0, 0, 0, 0, 0, 0, 0, 4]);
    let query = get_mappings_into(258);
    assert_eq!(query.ref_guild_id, vec![0, 0, 0, 0, 0, 0, 1, 2]);
}

#[test]
fn each_row_gives_a_pair_of_guilds() {
    let rows = vec![(id_key(1), id_key(2)), (id_key(3), id_key(4)), (id_key(1), id_key(2))];
    assert_eq!(get_registered_guilds(&rows), vec![(1, 2), (3, 4), (1, 2)]);
}
