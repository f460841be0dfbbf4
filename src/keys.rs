//! Logical keys and the derivation of flat store keys from them.
use vstd::prelude::*;

use crate::codec::{int32_le, int32_to_bytes, lemma_int32_le_injective};

verus! {

/// An account identifier, held as its canonical byte representation.
pub struct AgentId {
    pub bytes: Vec<u8>,
}

impl View for AgentId {
    type V = Seq<u8>;

    open spec fn view(&self) -> Seq<u8> {
        self.bytes@
    }
}

impl AgentId {
    /// The identifier whose canonical bytes are `bytes`.
    pub fn from_bytes(bytes: Vec<u8>) -> (r: AgentId)
        ensures
            r@ == bytes@,
    {
        AgentId { bytes }
    }

    /// A copy of the canonical bytes.
    pub fn to_bytes(&self) -> (r: Vec<u8>)
        ensures
            r@ == self@,
    {
        self.bytes.clone()
    }
}

/// The prefix that scopes every key of the container `obj_id`.
pub open spec fn scope_prefix(obj_id: i32) -> Seq<u8> {
    int32_le(obj_id)
}

/// The flat store key of `key` inside the container `obj_id`.
pub open spec fn derived_key(obj_id: i32, key: Seq<u8>) -> Seq<u8> {
    scope_prefix(obj_id) + key
}

/// Whether the flat key `k` lies in the scope of the container `obj_id`.
pub open spec fn in_scope(k: Seq<u8>, obj_id: i32) -> bool {
    k.len() >= 4 && k.subrange(0, 4) == scope_prefix(obj_id)
}

/// Whether the flat key `k` lies in the scope of the container `obj_id`.
pub fn key_in_scope(k: &Vec<u8>, obj_id: i32) -> (r: bool)
    ensures
        r == in_scope(k@, obj_id),
{
    if k.len() < 4 {
        return false;
    }
    let prefix = int32_to_bytes(obj_id);
    let r = k[0] == prefix[0] && k[1] == prefix[1] && k[2] == prefix[2] && k[3] == prefix[3];
    assert(r ==> k@.subrange(0, 4) =~= scope_prefix(obj_id));
    assert(k@.subrange(0, 4) == scope_prefix(obj_id) ==> r) by {
        if k@.subrange(0, 4) == scope_prefix(obj_id) {
            assert(k@.subrange(0, 4)[1] == k@[1]);
            assert(k@.subrange(0, 4)[2] == k@[2]);
            assert(k@.subrange(0, 4)[3] == k@[3]);
            assert(k@.subrange(0, 4)[0] == k@[0]);
        }
    }
    r
}

/// Derives the flat store key of `key` inside the container `obj_id`.
pub fn derive_key(obj_id: i32, key: &AgentId) -> (r: Vec<u8>)
    ensures
        r@ == derived_key(obj_id, key@),
{
    let mut r = int32_to_bytes(obj_id);
    let mut i: usize = 0;
    while i < key.bytes.len()
        invariant
            0 <= i <= key.bytes@.len(),
            r@ == scope_prefix(obj_id) + key.bytes@.subrange(0, i as int),
        decreases key.bytes@.len() - i,
    {
        r.push(key.bytes[i]);
        i = i + 1;
        assert(r@ =~= scope_prefix(obj_id) + key.bytes@.subrange(0, i as int));
    }
    assert(key.bytes@.subrange(0, i as int) =~= key.bytes@);
    r
}

/// A derived key lies in the scope of its own container.
pub proof fn lemma_derived_key_in_scope(obj_id: i32, key: Seq<u8>)
    ensures
        in_scope(derived_key(obj_id, key), obj_id),
        forall|other: i32| in_scope(derived_key(obj_id, key), other) ==> other == obj_id,
{
    let d = derived_key(obj_id, key);
    assert(d.subrange(0, 4) =~= scope_prefix(obj_id));
    assert forall|other: i32| in_scope(d, other) implies other == obj_id by {
        lemma_int32_le_injective(obj_id, other);
    }
}

/// Within one container, distinct logical keys derive distinct flat keys.
pub proof fn lemma_derive_key_injective_in_key(obj_id: i32, k1: Seq<u8>, k2: Seq<u8>)
    requires
        k1 != k2,
    ensures
        derived_key(obj_id, k1) != derived_key(obj_id, k2),
{
    let (d1, d2) = (derived_key(obj_id, k1), derived_key(obj_id, k2));
    if d1 == d2 {
        assert(d1.subrange(4, d1.len() as int) =~= k1);
        assert(d2.subrange(4, d2.len() as int) =~= k2);
    }
}

/// Distinct containers never share a flat key, whatever the logical keys.
pub proof fn lemma_derive_key_separates_containers(id1: i32, id2: i32, k1: Seq<u8>, k2: Seq<u8>)
    requires
        id1 != id2,
    ensures
        derived_key(id1, k1) != derived_key(id2, k2),
{
    lemma_derived_key_in_scope(id1, k1);
    lemma_derived_key_in_scope(id2, k2);
}

} // verus!
