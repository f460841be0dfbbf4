//! Byte encodings of integers, and their injectivity.
use vstd::prelude::*;

verus! {

/// The four little-endian bytes of a 32-bit integer.
pub open spec fn int32_le(v: i32) -> Seq<u8> {
    let u = v as u32;
    seq![u as u8, (u >> 8u32) as u8, (u >> 16u32) as u8, (u >> 24u32) as u8]
}

/// The eight little-endian bytes of a 64-bit integer.
pub open spec fn int64_le(v: i64) -> Seq<u8> {
    let u = v as u64;
    seq![
        u as u8,
        (u >> 8u64) as u8,
        (u >> 16u64) as u8,
        (u >> 24u64) as u8,
        (u >> 32u64) as u8,
        (u >> 40u64) as u8,
        (u >> 48u64) as u8,
        (u >> 56u64) as u8,
    ]
}

/// The 64-bit integer whose little-endian bytes are the first eight of `b`.
pub open spec fn int64_of_le(b: Seq<u8>) -> i64 {
    ((b[0] as u64) | ((b[1] as u64) << 8u64) | ((b[2] as u64) << 16u64) | ((b[3] as u64) << 24u64)
        | ((b[4] as u64) << 32u64) | ((b[5] as u64) << 40u64) | ((b[6] as u64) << 48u64) | ((
    b[7] as u64) << 56u64)) as i64
}

/// Distinct 32-bit integers have distinct encodings.
pub proof fn lemma_int32_le_injective(a: i32, b: i32)
    ensures
        int32_le(a) == int32_le(b) <==> a == b,
{
    if int32_le(a) == int32_le(b) {
        let (x, y) = (int32_le(a), int32_le(b));
        assert(x[0] == y[0] && x[1] == y[1] && x[2] == y[2] && x[3] == y[3]);
        assert(((a as u32) as u8 == (b as u32) as u8 && ((a as u32) >> 8u32) as u8 == ((
        b as u32) >> 8u32) as u8 && ((a as u32) >> 16u32) as u8 == ((b as u32) >> 16u32) as u8
            && ((a as u32) >> 24u32) as u8 == ((b as u32) >> 24u32) as u8) ==> a == b)
            by (bit_vector);
    }
}

/// Decoding the encoding of a 64-bit integer gives the integer back.
pub proof fn lemma_int64_le_round_trip(v: i64)
    ensures
        int64_le(v).len() == 8,
        int64_of_le(int64_le(v)) == v,
{
    let u = v as u64;
    assert(((u as u8) as u64 | (((u >> 8u64) as u8) as u64) << 8u64 | (((u >> 16u64) as u8) as u64)
        << 16u64 | (((u >> 24u64) as u8) as u64) << 24u64 | (((u >> 32u64) as u8) as u64) << 32u64
        | (((u >> 40u64) as u8) as u64) << 40u64 | (((u >> 48u64) as u8) as u64) << 48u64 | (((u
        >> 56u64) as u8) as u64) << 56u64) as i64 == v) by (bit_vector)
        requires
            u == v as u64,
    ;
}

/// Relies on wasmlib::int32_to_bytes: the little-endian bytes of the value.
#[verifier::external_body]
pub(crate) fn int32_to_bytes(v: i32) -> (r: Vec<u8>)
    ensures
        r@ == int32_le(v),
{
    wasmlib::int32_to_bytes(v)
}

/// Relies on wasmlib::int64_to_bytes: the little-endian bytes of the value.
#[verifier::external_body]
pub(crate) fn int64_to_bytes(v: i64) -> (r: Vec<u8>)
    ensures
        r@ == int64_le(v),
{
    wasmlib::int64_to_bytes(v)
}

/// Relies on wasmlib::int64_from_bytes: zero for no bytes, else the value of
/// eight little-endian bytes (any other length makes it abort).
#[verifier::external_body]
pub(crate) fn int64_from_bytes(b: &Vec<u8>) -> (r: i64)
    requires
        b@.len() == 0 || b@.len() == 8,
    ensures
        b@.len() == 0 ==> r == 0,
        b@.len() == 8 ==> r == int64_of_le(b@),
{
    wasmlib::int64_from_bytes(b.as_slice())
}

} // verus!
