//! Laws that relate writing, reading and clearing through the proxies.
use vstd::prelude::*;

use crate::codec::{int64_le, lemma_int64_le_round_trip};
use crate::keys::{
    derived_key,
    in_scope,
    lemma_derive_key_injective_in_key,
    lemma_derive_key_separates_containers,
    lemma_derived_key_in_scope,
};
use crate::proxy::int64_at;

verus! {

/// A key that was never written reads as zero.
pub proof fn lemma_unwritten_reads_zero(m: Map<Seq<u8>, Seq<u8>>, obj_id: i32, key: Seq<u8>)
    requires
        !m.contains_key(derived_key(obj_id, key)),
    ensures
        int64_at(m, derived_key(obj_id, key)) == 0,
{
}

/// In a store with no entries, every key of every map reads as zero.
pub proof fn lemma_empty_store_reads_zero(m: Map<Seq<u8>, Seq<u8>>, obj_id: i32, key: Seq<u8>)
    requires
        m.dom() == Set::<Seq<u8>>::empty(),
    ensures
        int64_at(m, derived_key(obj_id, key)) == 0,
{
    assert(!m.dom().contains(derived_key(obj_id, key)));
}

/// Writing a value under a key and reading that key gives the value back.
pub proof fn lemma_write_then_read(m: Map<Seq<u8>, Seq<u8>>, obj_id: i32, key: Seq<u8>, v: i64)
    ensures
        int64_at(m.insert(derived_key(obj_id, key), int64_le(v)), derived_key(obj_id, key)) == v,
{
    lemma_int64_le_round_trip(v);
}

/// Writing under one key of a map leaves what every other key of every map
/// reads unchanged.
pub proof fn lemma_write_leaves_others(
    m: Map<Seq<u8>, Seq<u8>>,
    id1: i32,
    k1: Seq<u8>,
    id2: i32,
    k2: Seq<u8>,
    v: i64,
)
    requires
        id1 != id2 || k1 != k2,
    ensures
        int64_at(m.insert(derived_key(id1, k1), int64_le(v)), derived_key(id2, k2)) == int64_at(
            m,
            derived_key(id2, k2),
        ),
{
    if id1 != id2 {
        lemma_derive_key_separates_containers(id1, id2, k1, k2);
    } else {
        lemma_derive_key_injective_in_key(id1, k1, k2);
    }
}

/// After a map is cleared, each of its keys reads as zero, and each key of
/// another map reads as before.
pub proof fn lemma_clear_then_read(
    before: Map<Seq<u8>, Seq<u8>>,
    after: Map<Seq<u8>, Seq<u8>>,
    obj_id: i32,
    other: i32,
    key: Seq<u8>,
)
    requires
        forall|k: Seq<u8>| #[trigger]
            after.contains_key(k) <==> (before.contains_key(k) && !in_scope(k, obj_id)),
        forall|k: Seq<u8>| #[trigger] after.contains_key(k) ==> after[k] == before[k],
        other != obj_id,
    ensures
        int64_at(after, derived_key(obj_id, key)) == 0,
        int64_at(after, derived_key(other, key)) == int64_at(before, derived_key(other, key)),
{
    lemma_derived_key_in_scope(obj_id, key);
    lemma_derived_key_in_scope(other, key);
}

} // verus!
