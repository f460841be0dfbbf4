//! Issues the object identifiers that scope containers in the store.
use vstd::prelude::*;

verus! {

/// Hands out identifiers in increasing order from `first`; the identifiers
/// issued so far are exactly those in `first .. next`.
pub struct ObjectRegistry {
    first: i32,
    next: i32,
}

impl ObjectRegistry {
    pub closed spec fn wf(&self) -> bool {
        self.first <= self.next
    }

    /// Whether `id` has been issued by this registry.
    pub closed spec fn issued(&self, id: i32) -> bool {
        self.first <= id < self.next
    }

    /// Whether another identifier can still be issued.
    pub closed spec fn can_issue(&self) -> bool {
        self.next < i32::MAX
    }

    /// A registry that has issued nothing and issues `first` next.
    pub fn new(first: i32) -> (r: ObjectRegistry)
        ensures
            r.wf(),
            forall|id: i32| !r.issued(id),
            first < i32::MAX ==> r.can_issue(),
    {
        ObjectRegistry { first, next: first }
    }

    /// Whether another identifier can still be issued.
    pub fn has_capacity(&self) -> (r: bool)
        ensures
            r == self.can_issue(),
    {
        self.next < i32::MAX
    }

    /// Issues an identifier that was not issued before.
    pub fn issue(&mut self) -> (r: i32)
        requires
            old(self).wf(),
            old(self).can_issue(),
        ensures
            final(self).wf(),
            !old(self).issued(r),
            forall|id: i32| #[trigger] final(self).issued(id) <==> (old(self).issued(id) || id == r),
    {
        let r = self.next;
        self.next = self.next + 1;
        r
    }
}

} // verus!
