//! Read-only and mutable handles on one 64-bit integer in the store.
use vstd::prelude::*;

use crate::codec::{int64_from_bytes, int64_le, int64_of_le, int64_to_bytes, lemma_int64_le_round_trip};
use crate::keys::{derive_key, derived_key, AgentId};
use crate::store::HostStore;

verus! {

/// The integer that the store `m` holds under `k`: zero where `k` holds
/// nothing.
pub open spec fn int64_at(m: Map<Seq<u8>, Seq<u8>>, k: Seq<u8>) -> i64 {
    if m.contains_key(k) {
        int64_of_le(m[k])
    } else {
        0
    }
}

/// Reads the integer under `key`.
fn read_int64(store: &HostStore, key: &Vec<u8>) -> (r: i64)
    requires
        store.wf(),
    ensures
        r == int64_at(store@, key@),
{
    let bytes = store.get(key);
    int64_from_bytes(&bytes)
}

/// Writes `value` under `key`.
fn write_int64(store: &mut HostStore, key: &Vec<u8>, value: i64)
    requires
        old(store).wf(),
    ensures
        final(store).wf(),
        final(store)@ == old(store)@.insert(key@, int64_le(value)),
        int64_at(final(store)@, key@) == value,
{
    let bytes = int64_to_bytes(value);
    proof {
        lemma_int64_le_round_trip(value);
    }
    store.set(key, &bytes);
}

/// A read-only handle on the integer at one flat key.
pub struct ScImmutableInt64 {
    key: Vec<u8>,
}

impl ScImmutableInt64 {
    /// The flat key this handle reads.
    pub closed spec fn key(&self) -> Seq<u8> {
        self.key@
    }

    /// The handle on `key` inside the container `obj_id`.
    pub fn new(obj_id: i32, key: &AgentId) -> (r: ScImmutableInt64)
        ensures
            r.key() == derived_key(obj_id, key@),
    {
        ScImmutableInt64 { key: derive_key(obj_id, key) }
    }

    /// Whether a value has been written at this handle's key.
    pub fn is_set(&self, store: &HostStore) -> (r: bool)
        requires
            store.wf(),
        ensures
            r == store@.contains_key(self.key()),
    {
        store.contains_key(&self.key)
    }

    /// The integer at this handle's key; zero where none was written.
    pub fn value(&self, store: &HostStore) -> (r: i64)
        requires
            store.wf(),
        ensures
            r == int64_at(store@, self.key()),
    {
        read_int64(store, &self.key)
    }
}

/// A read-write handle on the integer at one flat key.
pub struct ScMutableInt64 {
    key: Vec<u8>,
}

impl ScMutableInt64 {
    /// The flat key this handle reads and writes.
    pub closed spec fn key(&self) -> Seq<u8> {
        self.key@
    }

    /// The handle on `key` inside the container `obj_id`.
    pub fn new(obj_id: i32, key: &AgentId) -> (r: ScMutableInt64)
        ensures
            r.key() == derived_key(obj_id, key@),
    {
        ScMutableInt64 { key: derive_key(obj_id, key) }
    }

    /// A read-only handle on the same key.
    pub fn immutable(&self) -> (r: ScImmutableInt64)
        ensures
            r.key() == self.key(),
    {
        ScImmutableInt64 { key: self.key.clone() }
    }

    /// Whether a value has been written at this handle's key.
    pub fn is_set(&self, store: &HostStore) -> (r: bool)
        requires
            store.wf(),
        ensures
            r == store@.contains_key(self.key()),
    {
        store.contains_key(&self.key)
    }

    /// The integer at this handle's key; zero where none was written.
    pub fn value(&self, store: &HostStore) -> (r: i64)
        requires
            store.wf(),
        ensures
            r == int64_at(store@, self.key()),
    {
        read_int64(store, &self.key)
    }

    /// Writes `value` at this handle's key, leaving every other key as it was.
    pub fn set_value(&self, store: &mut HostStore, value: i64)
        requires
            old(store).wf(),
        ensures
            final(store).wf(),
            final(store)@ == old(store)@.insert(self.key(), int64_le(value)),
            int64_at(final(store)@, self.key()) == value,
    {
        write_int64(store, &self.key, value)
    }

    /// Removes the value at this handle's key; it reads as zero afterwards.
    pub fn delete(&self, store: &mut HostStore)
        requires
            old(store).wf(),
        ensures
            final(store).wf(),
            final(store)@ == old(store)@.remove(self.key()),
            int64_at(final(store)@, self.key()) == 0,
    {
        store.delete(&self.key)
    }
}

} // verus!
