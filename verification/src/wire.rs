use vstd::prelude::*;

verus! {

/// The four bytes of a 32-bit value, least significant first.
pub open spec fn u32_le_bytes(value: u32) -> Seq<u8> {
    seq![
        (value % 256) as u8,
        (value / 256 % 256) as u8,
        (value / 65536 % 256) as u8,
        (value / 16777216) as u8,
    ]
}

/// The 32-bit value whose bytes, least significant first, are the first four of `bytes`.
pub open spec fn u32_from_le(bytes: Seq<u8>) -> u32
    recommends
        bytes.len() >= 4,
{
    (bytes[0] + 256 * bytes[1] + 65536 * bytes[2] + 16777216 * bytes[3]) as u32
}

/// The eight bytes of a 64-bit value, least significant first.
pub open spec fn u64_le_bytes(value: u64) -> Seq<u8> {
    u32_le_bytes((value % 4294967296) as u32) + u32_le_bytes((value / 4294967296) as u32)
}

/// The 64-bit value whose bytes, least significant first, are the first eight of `bytes`.
pub open spec fn u64_from_le(bytes: Seq<u8>) -> u64
    recommends
        bytes.len() >= 8,
{
    (u32_from_le(bytes.subrange(0, 4)) + 4294967296 * u32_from_le(bytes.subrange(4, 8))) as u64
}

/// The bit pattern of a signed 32-bit value, read as an unsigned one.
pub open spec fn i32_bits(value: i32) -> u32 {
    if value >= 0 {
        value as u32
    } else {
        (value + 4294967296) as u32
    }
}

pub fn encode_u32(value: u32) -> (bytes: [u8; 4])
    ensures
        bytes@ == u32_le_bytes(value),
{
    let bytes: [u8; 4] = [
        (value % 256) as u8,
        (value / 256 % 256) as u8,
        (value / 65536 % 256) as u8,
        (value / 16777216) as u8,
    ];
    assert(bytes@ =~= u32_le_bytes(value));
    bytes
}

pub fn decode_u32(bytes: &[u8]) -> (value: u32)
    requires
        bytes@.len() >= 4,
    ensures
        value == u32_from_le(bytes@),
{
    let b0: u32 = bytes[0] as u32;
    let b1: u32 = bytes[1] as u32;
    let b2: u32 = bytes[2] as u32;
    let b3: u32 = bytes[3] as u32;
    b0 + 256 * b1 + 65536 * b2 + 16777216 * b3
}

pub fn encode_u64(value: u64) -> (bytes: [u8; 8])
    ensures
        bytes@ == u64_le_bytes(value),
{
    let low: [u8; 4] = encode_u32((value % 4294967296) as u32);
    let high: [u8; 4] = encode_u32((value / 4294967296) as u32);
    let bytes: [u8; 8] = [low[0], low[1], low[2], low[3], high[0], high[1], high[2], high[3]];
    assert(bytes@ =~= u64_le_bytes(value));
    bytes
}

pub fn decode_u64(bytes: &[u8]) -> (value: u64)
    requires
        bytes@.len() >= 8,
    ensures
        value == u64_from_le(bytes@),
{
    let low: u64 = decode_u32(vstd::slice::slice_subrange(bytes, 0, 4)) as u64;
    let high: u64 = decode_u32(vstd::slice::slice_subrange(bytes, 4, 8)) as u64;
    low + 4294967296 * high
}

pub fn encode_i32(value: i32) -> (bytes: [u8; 4])
    ensures
        bytes@ == u32_le_bytes(i32_bits(value)),
{
    let bits: u32 = if value >= 0 {
        value as u32
    } else {
        (value as i64 + 4294967296) as u32
    };
    encode_u32(bits)
}

/// Encoding a 32-bit value and decoding the bytes gives the value back.
pub proof fn lemma_u32_round_trip(value: u32)
    ensures
        u32_le_bytes(value).len() == 4,
        u32_from_le(u32_le_bytes(value)) == value,
{
}

/// Four bytes are the encoding of the value that they decode to.
pub proof fn lemma_u32_bytes_round_trip(bytes: Seq<u8>)
    requires
        bytes.len() == 4,
    ensures
        u32_le_bytes(u32_from_le(bytes)) == bytes,
{
    let b0 = bytes[0] as u32;
    let b1 = bytes[1] as u32;
    let b2 = bytes[2] as u32;
    let b3 = bytes[3] as u32;
    let value = u32_from_le(bytes);
    assert(value == b0 + 256 * b1 + 65536 * b2 + 16777216 * b3);
    assert(b0 < 256 && b1 < 256 && b2 < 256 && b3 < 256 ==> {
        let v = (b0 + 256 * b1 + 65536 * b2 + 16777216 * b3) as u32;
        &&& v % 256 == b0
        &&& v / 256 % 256 == b1
        &&& v / 65536 % 256 == b2
        &&& v / 16777216 == b3
    }) by (bit_vector);
    assert(u32_le_bytes(value) =~= bytes);
}

/// Encoding a 64-bit value and decoding the bytes gives the value back.
pub proof fn lemma_u64_round_trip(value: u64)
    ensures
        u64_le_bytes(value).len() == 8,
        u64_from_le(u64_le_bytes(value)) == value,
{
    let low = (value % 4294967296) as u32;
    let high = (value / 4294967296) as u32;
    let bytes = u64_le_bytes(value);
    assert(bytes.subrange(0, 4) =~= u32_le_bytes(low));
    assert(bytes.subrange(4, 8) =~= u32_le_bytes(high));
    lemma_u32_round_trip(low);
    lemma_u32_round_trip(high);
}

} // verus!
