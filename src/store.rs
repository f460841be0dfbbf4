//! The flat key-value store that holds the state, with scoped bulk removal.
use vstd::prelude::*;

use crate::keys::in_scope;
use crate::keys::key_in_scope;
use wasmlib::ScDict;

verus! {

#[verifier::external_type_specification]
#[verifier::external_body]
pub struct ExScDict(ScDict);

/// What a `ScDict` holds: each key with its value.
pub uninterp spec fn dict_entries(d: ScDict) -> Map<Seq<u8>, Seq<u8>>;

/// Whether a `ScDict` forwards to the host's state rather than holding its
/// entries itself.
pub uninterp spec fn dict_forwards_to_host(d: ScDict) -> bool;

/// Relies on wasmlib::ScDict::new: with no bytes to read it holds nothing,
/// in memory.
#[verifier::external_body]
fn dict_new() -> (r: ScDict)
    ensures
        dict_entries(r).dom() == Set::<Seq<u8>>::empty(),
        !dict_forwards_to_host(r),
{
    ScDict::new(&[])
}

/// Relies on wasmlib::ScDict::get: the value under the key, or no bytes.
#[verifier::external_body]
fn dict_get(d: &ScDict, k: &Vec<u8>) -> (r: Vec<u8>)
    requires
        !dict_forwards_to_host(*d),
    ensures
        dict_entries(*d).contains_key(k@) ==> r@ == dict_entries(*d)[k@],
        !dict_entries(*d).contains_key(k@) ==> r@.len() == 0,
{
    d.get(k.as_slice())
}

/// Relies on wasmlib::ScDict::exists: whether the key holds a value.
#[verifier::external_body]
fn dict_exists(d: &ScDict, k: &Vec<u8>) -> (r: bool)
    requires
        !dict_forwards_to_host(*d),
    ensures
        r == dict_entries(*d).contains_key(k@),
{
    d.exists(k.as_slice())
}

/// Relies on wasmlib::ScDict::set: the key holds the value afterwards.
#[verifier::external_body]
fn dict_set(d: &mut ScDict, k: &Vec<u8>, v: &Vec<u8>)
    requires
        !dict_forwards_to_host(*old(d)),
    ensures
        dict_entries(*final(d)) == dict_entries(*old(d)).insert(k@, v@),
        !dict_forwards_to_host(*final(d)),
{
    d.set(k.as_slice(), v.as_slice())
}

/// Relies on wasmlib::ScDict::delete: the key holds nothing afterwards.
#[verifier::external_body]
fn dict_delete(d: &mut ScDict, k: &Vec<u8>)
    requires
        !dict_forwards_to_host(*old(d)),
    ensures
        dict_entries(*final(d)) == dict_entries(*old(d)).remove(k@),
        !dict_forwards_to_host(*final(d)),
{
    d.delete(k.as_slice())
}

/// Width in bytes of every value the store holds: one 64-bit integer.
pub const SLOT_LEN: usize = 8;

/// The flat store: byte keys to the encodings of 64-bit integers.
///
/// Besides the entries it remembers every key it has written, so that all
/// keys in a container's scope can be removed at once.
pub struct HostStore {
    dict: ScDict,
    written: Vec<Vec<u8>>,
}

impl View for HostStore {
    type V = Map<Seq<u8>, Seq<u8>>;

    closed spec fn view(&self) -> Map<Seq<u8>, Seq<u8>> {
        dict_entries(self.dict)
    }
}

impl HostStore {
    /// The entries live in memory, every value is one slot wide, and every
    /// key that holds a value is among the written keys.
    pub closed spec fn wf(&self) -> bool {
        &&& !dict_forwards_to_host(self.dict)
        &&& forall|k: Seq<u8>| #[trigger]
            self@.contains_key(k) ==> self@[k].len() == SLOT_LEN
        &&& forall|k: Seq<u8>| #[trigger]
            self@.contains_key(k) ==> exists|j: int|
                0 <= j < self.written@.len() && (#[trigger] self.written@[j])@ == k
    }

    /// An empty store.
    pub fn new() -> (r: HostStore)
        ensures
            r.wf(),
            r@.dom() == Set::<Seq<u8>>::empty(),
    {
        HostStore { dict: dict_new(), written: Vec::new() }
    }

    /// The value under `k`, or no bytes where `k` holds nothing.
    pub fn get(&self, k: &Vec<u8>) -> (r: Vec<u8>)
        requires
            self.wf(),
        ensures
            self@.contains_key(k@) ==> r@ == self@[k@],
            !self@.contains_key(k@) ==> r@.len() == 0,
            self@.contains_key(k@) ==> r@.len() == SLOT_LEN,
    {
        let r = dict_get(&self.dict, k);
        proof {
            if self@.contains_key(k@) {
                assert(self@[k@].len() == SLOT_LEN);
            }
        }
        r
    }

    /// Whether `k` holds a value.
    pub fn contains_key(&self, k: &Vec<u8>) -> (r: bool)
        requires
            self.wf(),
        ensures
            r == self@.contains_key(k@),
    {
        dict_exists(&self.dict, k)
    }

    /// Writes `v` under `k`, replacing what was there.
    pub fn set(&mut self, k: &Vec<u8>, v: &Vec<u8>)
        requires
            old(self).wf(),
            v@.len() == SLOT_LEN,
        ensures
            final(self).wf(),
            final(self)@ == old(self)@.insert(k@, v@),
    {
        if !dict_exists(&self.dict, k) {
            self.written.push(k.clone());
        }
        dict_set(&mut self.dict, k, v);
        proof {
            assert forall|q: Seq<u8>| #[trigger] self@.contains_key(q) implies self@[q].len()
                == SLOT_LEN by {
                if q != k@ {
                    assert(old(self)@.contains_key(q));
                }
            }
            let n = self.written@.len();
            assert forall|q: Seq<u8>| #[trigger] self@.contains_key(q) implies exists|j: int|
                0 <= j < n && (#[trigger] self.written@[j])@ == q by {
                if q == k@ {
                    if !old(self)@.contains_key(k@) {
                        assert(self.written@[n - 1]@ == q);
                    } else {
                        let j = choose|j: int|
                            0 <= j < old(self).written@.len() && (#[trigger] old(
                                self,
                            ).written@[j])@ == q;
                        assert(self.written@[j] == old(self).written@[j]);
                    }
                } else {
                    assert(old(self)@.contains_key(q));
                    let j = choose|j: int|
                        0 <= j < old(self).written@.len() && (#[trigger] old(
                            self,
                        ).written@[j])@ == q;
                    assert(self.written@[j] == old(self).written@[j]);
                }
            }
        }
    }

    /// Removes the value under `k`, if any.
    pub fn delete(&mut self, k: &Vec<u8>)
        requires
            old(self).wf(),
        ensures
            final(self).wf(),
            final(self)@ == old(self)@.remove(k@),
    {
        dict_delete(&mut self.dict, k);
        assert forall|q: Seq<u8>| #[trigger] self@.contains_key(q) implies self@[q].len() == SLOT_LEN
            && exists|j: int| 0 <= j < self.written@.len() && (#[trigger] self.written@[j])@ == q by {
            assert(old(self)@.contains_key(q));
            let j = choose|j: int|
                0 <= j < old(self).written@.len() && (#[trigger] old(self).written@[j])@ == q;
            assert(self.written@[j] == old(self).written@[j]);
        }
    }

    /// Removes every value whose key lies in the scope of `obj_id`, and
    /// keeps every other.
    pub fn clear_scope(&mut self, obj_id: i32)
        requires
            old(self).wf(),
        ensures
            final(self).wf(),
            forall|k: Seq<u8>| #[trigger]
                final(self)@.contains_key(k) <==> (old(self)@.contains_key(k) && !in_scope(
                    k,
                    obj_id,
                )),
            forall|k: Seq<u8>| #[trigger]
                final(self)@.contains_key(k) ==> final(self)@[k] == old(self)@[k],
    {
        let ghost orig = self@;
        let mut kept: Vec<Vec<u8>> = Vec::new();
        let mut i: usize = 0;
        while i < self.written.len()
            invariant
                self.written@ == old(self).written@,
                orig == old(self)@,
                old(self).wf(),
                0 <= i <= self.written@.len(),
                !dict_forwards_to_host(self.dict),
                forall|k: Seq<u8>| #[trigger]
                    self@.contains_key(k) <==> (orig.contains_key(k) && !(in_scope(k, obj_id)
                        && exists|j: int| 0 <= j < i && (#[trigger] self.written@[j])@ == k)),
                forall|k: Seq<u8>| #[trigger] self@.contains_key(k) ==> self@[k] == orig[k],
                forall|k: Seq<u8>| #[trigger]
                    self@.contains_key(k) ==> (exists|j: int|
                        0 <= j < kept@.len() && (#[trigger] kept@[j])@ == k) || (exists|j: int|
                        i <= j < self.written@.len() && (#[trigger] self.written@[j])@ == k),
            decreases self.written@.len() - i,
        {
            let ghost before = self@;
            let ghost kept_before = kept@;
            if key_in_scope(&self.written[i], obj_id) {
                dict_delete(&mut self.dict, &self.written[i]);
            } else {
                kept.push(self.written[i].clone());
            }
            proof {
                let w = self.written@[i as int]@;
                assert forall|k: Seq<u8>| #[trigger]
                    self@.contains_key(k) <==> (orig.contains_key(k) && !(in_scope(k, obj_id)
                        && exists|j: int|
                        0 <= j < i + 1 && (#[trigger] self.written@[j])@ == k)) by {
                    if in_scope(k, obj_id) && exists|j: int|
                        0 <= j < i + 1 && (#[trigger] self.written@[j])@ == k {
                        let j = choose|j: int| 0 <= j < i + 1 && (#[trigger] self.written@[j])@ == k;
                        if j < i {
                        } else {
                            assert(k == w);
                        }
                    }
                    if !(exists|j: int| 0 <= j < i + 1 && (#[trigger] self.written@[j])@ == k) {
                        assert(!(exists|j: int| 0 <= j < i && (#[trigger] self.written@[j])@ == k));
                        assert(k != w);
                    }
                    if exists|j: int| 0 <= j < i && (#[trigger] self.written@[j])@ == k {
                        let j = choose|j: int| 0 <= j < i && (#[trigger] self.written@[j])@ == k;
                        assert(0 <= j < i + 1 && self.written@[j]@ == k);
                    }
                }
                assert forall|k: Seq<u8>| #[trigger] self@.contains_key(k) implies (exists|j: int|
                    0 <= j < kept@.len() && (#[trigger] kept@[j])@ == k) || (exists|j: int|
                    i + 1 <= j < self.written@.len() && (#[trigger] self.written@[j])@ == k) by {
                    assert(before.contains_key(k));
                    if exists|j: int| 0 <= j < kept_before.len() && (#[trigger] kept_before[j])@ == k {
                        let j = choose|j: int|
                            0 <= j < kept_before.len() && (#[trigger] kept_before[j])@ == k;
                        assert(kept@[j] == kept_before[j]);
                    } else {
                        let j = choose|j: int|
                            i <= j < self.written@.len() && (#[trigger] self.written@[j])@ == k;
                        if j == i {
                            assert(!in_scope(k, obj_id));
                            assert(kept@[kept@.len() - 1]@ == k);
                        }
                    }
                }
            }
            i = i + 1;
        }
        let ghost mid = self@;
        let ghost kept_v = kept@;
        self.written = kept;
        proof {
            assert(self@ == mid);
            assert forall|q: Seq<u8>| #[trigger] self@.contains_key(q) implies self@[q].len()
                == SLOT_LEN && exists|j: int|
                0 <= j < self.written@.len() && (#[trigger] self.written@[j])@ == q by {
                assert(mid.contains_key(q));
                assert(orig.contains_key(q));
                assert(self@[q] == orig[q]);
                assert(orig[q].len() == SLOT_LEN);
                assert(self.written@ == kept_v);
                let j = choose|j: int| 0 <= j < kept_v.len() && (#[trigger] kept_v[j])@ == q;
                assert(self.written@[j]@ == q);
            }
            assert forall|k: Seq<u8>| #[trigger]
                self@.contains_key(k) <==> (old(self)@.contains_key(k) && !in_scope(k, obj_id)) by {
                if old(self)@.contains_key(k) && in_scope(k, obj_id) {
                    let j = choose|j: int|
                        0 <= j < old(self).written@.len() && (#[trigger] old(self).written@[j])@ == k;
                    assert(0 <= j < i && old(self).written@[j]@ == k);
                }
            }
        }
    }
}

} // verus!
