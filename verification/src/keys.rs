//! Identifiers as they are kept in the database: eight bytes, most significant first.
use vstd::prelude::*;

verus! {

/// The eight bytes of `x`, most significant first.
pub open spec fn be_bytes(x: u64) -> Seq<u8> {
    seq![
        (x / 0x100_0000_0000_0000u64) as u8,
        ((x / 0x1_0000_0000_0000u64) % 256) as u8,
        ((x / 0x100_0000_0000u64) % 256) as u8,
        ((x / 0x1_0000_0000u64) % 256) as u8,
        ((x / 0x100_0000u64) % 256) as u8,
        ((x / 0x1_0000u64) % 256) as u8,
        ((x / 0x100u64) % 256) as u8,
        (x % 256) as u8,
    ]
}

/// The number that the first eight bytes of `key` spell, most significant first.
pub open spec fn be_value(key: Seq<u8>) -> int {
    key[0] * 0x100_0000_0000_0000 + key[1] * 0x1_0000_0000_0000 + key[2] * 0x100_0000_0000 + key[3]
        * 0x1_0000_0000 + key[4] * 0x100_0000 + key[5] * 0x1_0000 + key[6] * 0x100 + key[7]
}

/// A key from which an identifier can be read: long enough, and not zero.
pub open spec fn is_id_key(key: Seq<u8>) -> bool {
    &&& key.len() >= 8
    &&& be_value(key) != 0
}

/// Reading back the bytes of a number gives the number.
pub proof fn be_bytes_round_trip(x: u64)
    ensures
        be_bytes(x).len() == 8,
        be_value(be_bytes(x)) == x,
{
    let a: u64 = x / 0x100u64;
    let b: u64 = x / 0x1_0000u64;
    let c: u64 = x / 0x100_0000u64;
    let d: u64 = x / 0x1_0000_0000u64;
    let e: u64 = x / 0x100_0000_0000u64;
    let f: u64 = x / 0x1_0000_0000_0000u64;
    let g: u64 = x / 0x100_0000_0000_0000u64;
    assert(a / 256 == b && b / 256 == c && c / 256 == d && d / 256 == e && e / 256 == f && f / 256
        == g);
    assert(g < 256);
    assert(x == a * 256 + x % 256);
    assert(a == b * 256 + a % 256);
    assert(b == c * 256 + b % 256);
    assert(c == d * 256 + c % 256);
    assert(d == e * 256 + d % 256);
    assert(e == f * 256 + e % 256);
    assert(f == g * 256 + f % 256);
}

/// Two numbers with the same key are the same number.
pub proof fn be_bytes_injective(x: u64, y: u64)
    requires
        be_bytes(x) == be_bytes(y),
    ensures
        x == y,
{
    be_bytes_round_trip(x);
    be_bytes_round_trip(y);
}

/// The key under which an identifier is stored.
pub fn id_key(id: u64) -> (key: Vec<u8>)
    ensures
        key@ == be_bytes(id),
        key@.len() == 8,
        be_value(key@) == id,
{
    proof {
        be_bytes_round_trip(id);
    }
    let mut key: Vec<u8> = Vec::new();
    key.push((id / 0x100_0000_0000_0000u64) as u8);
    key.push(((id / 0x1_0000_0000_0000u64) % 256) as u8);
    key.push(((id / 0x100_0000_0000u64) % 256) as u8);
    key.push(((id / 0x1_0000_0000u64) % 256) as u8);
    key.push(((id / 0x100_0000u64) % 256) as u8);
    key.push(((id / 0x1_0000u64) % 256) as u8);
    key.push(((id / 0x100u64) % 256) as u8);
    key.push((id % 256) as u8);
    key
}

/// The number that the first eight bytes of a key spell.
pub fn key_value(key: &Vec<u8>) -> (value: u64)
    requires
        key@.len() >= 8,
    ensures
        value == be_value(key@),
{
    let high: u64 = (key[0] as u64) * 0x100_0000 + (key[1] as u64) * 0x1_0000 + (key[2] as u64)
        * 0x100 + (key[3] as u64);
    let low: u64 = (key[4] as u64) * 0x100_0000 + (key[5] as u64) * 0x1_0000 + (key[6] as u64)
        * 0x100 + (key[7] as u64);
    high * 0x1_0000_0000 + low
}

/// Whether an identifier can be read from a key.
pub fn is_valid_key(key: &Vec<u8>) -> (valid: bool)
    ensures
        valid == is_id_key(key@),
{
    key.len() >= 8 && key_value(key) != 0
}

/// A copy of some bytes.
pub fn copy_bytes(bytes: &Vec<u8>) -> (copy: Vec<u8>)
    ensures
        copy@ == bytes@,
{
    let mut copy: Vec<u8> = Vec::new();
    for i in 0..bytes.len()
        invariant
            copy@ == bytes@.take(i as int),
    {
        copy.push(bytes[i]);
        assert(bytes@.take(i + 1) == bytes@.take(i as int).push(bytes@[i as int]));
    }
    assert(bytes@.take(bytes@.len() as int) == bytes@);
    copy
}

} // verus!
