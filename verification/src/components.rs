//! The component store: a sparse mapping from entity to tile classification.

use vstd::prelude::*;

use crate::entity::Entity;

verus! {

/// The tile classification a game entity can carry. Exactly one
/// classification per entity that has one; an entity need not have one.
#[derive(Clone, Copy, Debug, PartialEq, Eq, Structural)]
pub enum Tile {
    Player,
    Floor,
    Wall,
}

/// Sparse mapping from entity identifier to tile classification, stored as a
/// dense array keyed by the allocator's monotonically increasing identifiers.
pub struct TileTable {
    slots: Vec<Option<Tile>>,
}

impl TileTable {
    /// The classification associated with `e`, if any.
    pub closed spec fn tile_of(self, e: Entity) -> Option<Tile> {
        if e.id < self.slots@.len() {
            self.slots@[e.id as int]
        } else {
            None
        }
    }

    /// An empty store: no entity has a classification.
    pub fn new() -> (t: TileTable)
        ensures
            forall|e: Entity| t.tile_of(e) is None,
    {
        TileTable { slots: Vec::new() }
    }

    /// Associates `tile` with `entity`, overwriting any prior association
    /// and leaving every other entity's association unchanged.
    pub fn insert(&mut self, entity: Entity, tile: Tile)
        requires
            entity.id < usize::MAX,
        ensures
            final(self).tile_of(entity) == Some(tile),
            forall|e2: Entity| e2 != entity ==> final(self).tile_of(e2) == old(self).tile_of(e2),
    {
        while self.slots.len() <= entity.id
            invariant
                entity.id < usize::MAX,
                forall|e2: Entity| #[trigger] self.tile_of(e2) == old(self).tile_of(e2),
            decreases entity.id + 1 - self.slots@.len(),
        {
            let ghost prev = *self;
            self.slots.push(None);
            proof {
                assert forall|e2: Entity| #[trigger] self.tile_of(e2) == old(self).tile_of(
                    e2,
                ) by {
                    if e2.id < prev.slots@.len() {
                        assert(self.tile_of(e2) == prev.tile_of(e2));
                    } else {
                        assert(self.tile_of(e2) is None && prev.tile_of(e2) is None);
                    }
                }
            }
        }
        let ghost before = *self;
        self.slots.set(entity.id, Some(tile));
        proof {
            assert forall|e2: Entity| e2 != entity implies self.tile_of(e2) == old(
                self,
            ).tile_of(e2) by {
                assert(e2.id != entity.id);
                assert(self.tile_of(e2) == before.tile_of(e2));
                assert(before.tile_of(e2) == old(self).tile_of(e2));
            }
        }
    }

    /// All classified entities with their classifications, in increasing
    /// identifier order: a finite, restartable view of the store's contents.
    pub fn entries(&self) -> (r: Vec<(Entity, Tile)>)
        ensures
            forall|i: int|
                0 <= i < r@.len() ==> self.tile_of(#[trigger] r@[i].0) == Some(r@[i].1),
            forall|i: int, j: int| 0 <= i < j < r@.len() ==> r@[i].0.id < r@[j].0.id,
            forall|e: Entity, t: Tile|
                self.tile_of(e) == Some(t) ==> exists|i: int|
                    0 <= i < r@.len() && #[trigger] r@[i] == (e, t),
    {
        let mut r: Vec<(Entity, Tile)> = Vec::new();
        let mut idx: usize = 0;
        while idx < self.slots.len()
            invariant
                idx <= self.slots@.len(),
                forall|i: int|
                    0 <= i < r@.len() ==> self.tile_of(#[trigger] r@[i].0) == Some(r@[i].1),
                forall|i: int, j: int| 0 <= i < j < r@.len() ==> r@[i].0.id < r@[j].0.id,
                forall|i: int| 0 <= i < r@.len() ==> r@[i].0.id < idx,
                forall|e: Entity, t: Tile|
                    e.id < idx && self.tile_of(e) == Some(t) ==> exists|i: int|
                        0 <= i < r@.len() && #[trigger] r@[i] == (e, t),
            decreases self.slots@.len() - idx,
        {
            let ghost prev_r = r@;
            if let Some(tile) = self.slots[idx] {
                let entity = Entity { id: idx };
                r.push((entity, tile));
            }
            proof {
                assert forall|e: Entity, t: Tile|
                    e.id < idx + 1 && self.tile_of(e) == Some(t) implies exists|i: int|
                    0 <= i < r@.len() && #[trigger] r@[i] == (e, t) by {
                    if e.id < idx {
                        let i = choose|i: int| 0 <= i < prev_r.len() && #[trigger] prev_r[i] == (e, t);
                        assert(r@[i] == (e, t));
                    } else {
                        assert(r@[r@.len() - 1] == (e, t));
                    }
                }
            }
            idx = idx + 1;
        }
        proof {
            assert forall|e: Entity, t: Tile| self.tile_of(e) == Some(t) implies exists|i: int|
                0 <= i < r@.len() && #[trigger] r@[i] == (e, t) by {
                assert(e.id < self.slots@.len());
            }
        }
        r
    }
}

} // verus!
