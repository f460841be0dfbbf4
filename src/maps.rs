//! Maps from account identifiers to 64-bit integers, scoped by object
//! identifier, in a read-only and a mutable flavour.
use vstd::prelude::*;

use crate::keys::{derived_key, in_scope, lemma_derived_key_in_scope, AgentId};
use crate::proxy::{int64_at, ScImmutableInt64, ScMutableInt64};
use crate::store::HostStore;

verus! {

/// Read-only view of a map from account identifiers to integers.
pub struct MapAgentIDToImmutableInt64 {
    pub obj_id: i32,
}

/// The allowances granted to each agent, read-only.
pub type ImmutableAllowancesForAgent = MapAgentIDToImmutableInt64;

impl MapAgentIDToImmutableInt64 {
    /// The map held in the container `obj_id`.
    pub fn new(obj_id: i32) -> (r: MapAgentIDToImmutableInt64)
        ensures
            r.obj_id == obj_id,
    {
        MapAgentIDToImmutableInt64 { obj_id }
    }

    /// A read-only handle on the entry of `key`; nothing is read yet.
    pub fn get_int64(&self, key: &AgentId) -> (r: ScImmutableInt64)
        ensures
            r.key() == derived_key(self.obj_id, key@),
    {
        ScImmutableInt64::new(self.obj_id, key)
    }
}

/// Read-write view of a map from account identifiers to integers.
pub struct MapAgentIDToMutableInt64 {
    pub obj_id: i32,
}

/// The allowances granted to each agent, writable.
pub type MutableAllowancesForAgent = MapAgentIDToMutableInt64;

impl MapAgentIDToMutableInt64 {
    /// The map held in the container `obj_id`.
    pub fn new(obj_id: i32) -> (r: MapAgentIDToMutableInt64)
        ensures
            r.obj_id == obj_id,
    {
        MapAgentIDToMutableInt64 { obj_id }
    }

    /// The read-only view of the same container.
    pub fn immutable(&self) -> (r: MapAgentIDToImmutableInt64)
        ensures
            r.obj_id == self.obj_id,
    {
        MapAgentIDToImmutableInt64 { obj_id: self.obj_id }
    }

    /// Removes every entry of this map; entries of other containers stay.
    pub fn clear(&self, store: &mut HostStore)
        requires
            old(store).wf(),
        ensures
            final(store).wf(),
            forall|k: Seq<u8>| #[trigger]
                final(store)@.contains_key(k) <==> (old(store)@.contains_key(k) && !in_scope(
                    k,
                    self.obj_id,
                )),
            forall|k: Seq<u8>| #[trigger]
                final(store)@.contains_key(k) ==> final(store)@[k] == old(store)@[k],
            forall|key: Seq<u8>| #[trigger]
                int64_at(final(store)@, derived_key(self.obj_id, key)) == 0,
    {
        store.clear_scope(self.obj_id);
        assert forall|key: Seq<u8>| #[trigger]
            int64_at(store@, derived_key(self.obj_id, key)) == 0 by {
            lemma_derived_key_in_scope(self.obj_id, key);
        }
    }

    /// A read-write handle on the entry of `key`; nothing is read yet.
    pub fn get_int64(&self, key: &AgentId) -> (r: ScMutableInt64)
        ensures
            r.key() == derived_key(self.obj_id, key@),
    {
        ScMutableInt64::new(self.obj_id, key)
    }
}

} // verus!
