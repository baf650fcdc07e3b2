//! Entity identifiers and the allocator that issues them.

use vstd::prelude::*;

verus! {

/// An opaque, stable game-entity identifier with no intrinsic data. The rest
/// of the library treats the numeric identifier only as an index; fresh
/// identifiers come from an [`EntityAllocator`] and are never reused while
/// the allocator lives.
#[derive(Clone, Copy, Debug, PartialEq, Eq, Hash, Structural)]
pub struct Entity {
    pub id: usize,
}

/// Issues unique entity identifiers by counting upward; an identifier handed
/// out once is never handed out again.
#[derive(Clone, Copy, Debug, PartialEq, Eq, Structural)]
pub struct EntityAllocator {
    pub next_id: usize,
}

impl EntityAllocator {
    /// Whether `e` was issued by this allocator at some earlier point.
    pub open spec fn has_allocated(self, e: Entity) -> bool {
        e.id < self.next_id
    }

    /// Returns a fresh identifier, distinct from every identifier issued
    /// before, and keeps every earlier identifier issued.
    pub fn allocate(&mut self) -> (e: Entity)
        requires
            old(self).next_id < usize::MAX,
        ensures
            e.id == old(self).next_id,
            final(self).next_id == old(self).next_id + 1,
            !old(self).has_allocated(e),
            final(self).has_allocated(e),
            forall|e2: Entity| old(self).has_allocated(e2) ==> final(self).has_allocated(e2),
    {
        let e = Entity { id: self.next_id };
        self.next_id = self.next_id + 1;
        e
    }
}

impl Default for EntityAllocator {
    /// A fresh allocator that has issued no identifiers.
    fn default() -> (a: Self)
        ensures
            a.next_id == 0,
            forall|e: Entity| !a.has_allocated(e),
    {
        EntityAllocator { next_id: 0 }
    }
}

/// Uniqueness of allocation: an entity an allocator is yet to issue compares
/// unequal to every entity it has already issued. Together with the contract
/// of [`EntityAllocator::allocate`] — each call returns an identifier the
/// allocator had not issued and keeps all earlier ones issued — this gives,
/// by induction over the calls, that no two entities returned by distinct
/// allocations compare equal.
pub proof fn lemma_allocation_unique(a: EntityAllocator, prior: Entity, fresh: Entity)
    requires
        a.has_allocated(prior),
        !a.has_allocated(fresh),
    ensures
        fresh != prior,
{
}

} // verus!
