//! The layered spatial index: per layer, a mapping from grid coordinate to
//! at most one entity, with an O(1) reverse lookup from entity to location
//! and atomic relocation.

use vstd::prelude::*;

use crate::entity::Entity;
use crate::geometry::{flat_index, in_grid, lemma_flat_index_bound, lemma_flat_index_injective,
    Coord, Size};

verus! {

/// One of the three independent spatial planes. Separating layers lets a
/// walkable floor tile and a blocking wall coexist at one coordinate while
/// collision checks stay a per-layer presence test.
#[derive(Clone, Copy, Debug, PartialEq, Eq, Structural)]
pub enum Layer {
    Floor,
    Character,
    Feature,
}

/// A placement: which cell an entity occupies, and on which layer. An entity
/// sits in exactly one layer's plane at a time.
#[derive(Clone, Copy, Debug, PartialEq, Eq, Structural)]
pub struct Location {
    pub coord: Coord,
    pub layer: Layer,
}

/// The per-layer occupants of one cell, as reported by a point query.
#[derive(Clone, Copy, Debug, PartialEq, Eq, Structural)]
pub struct Layers {
    pub floor: Option<Entity>,
    pub character: Option<Entity>,
    pub feature: Option<Entity>,
}

/// Why a placement was refused. Both cases signal a broken precondition in
/// the caller and are never expected during normal play.
#[derive(Clone, Copy, Debug, PartialEq, Eq, Structural)]
pub enum SpatialError {
    /// Another entity already occupies the destination cell on that layer.
    Occupied,
    /// A coordinate-only relocation was attempted on an unplaced entity.
    NotPlaced,
}

/// The spatial index itself: three dense per-layer grids plus a reverse map
/// keyed by entity identifier.
pub struct SpatialTable {
    size: Size,
    floor: Vec<Option<Entity>>,
    character: Vec<Option<Entity>>,
    feature: Vec<Option<Entity>>,
    locations: Vec<Option<Location>>,
}

impl SpatialTable {
    /// The grid size this index was created with.
    pub closed spec fn spec_size(self) -> Size {
        self.size
    }

    spec fn grid(self, layer: Layer) -> Seq<Option<Entity>> {
        match layer {
            Layer::Floor => self.floor@,
            Layer::Character => self.character@,
            Layer::Feature => self.feature@,
        }
    }

    /// The entity occupying the cell `(x, y)` on `layer`, if any; `None` off
    /// the grid.
    pub closed spec fn entity_at(self, layer: Layer, x: int, y: int) -> Option<Entity> {
        if in_grid(self.size, x, y) {
            self.grid(layer)[y * self.size.width + x]
        } else {
            None
        }
    }

    /// The location `e` currently occupies, if any.
    pub closed spec fn loc_of(self, e: Entity) -> Option<Location> {
        if e.id < self.locations@.len() {
            self.locations@[e.id as int]
        } else {
            None
        }
    }

    spec fn dims_ok(self) -> bool {
        &&& self.size.wf()
        &&& self.size.area() <= usize::MAX
        &&& self.floor@.len() == self.size.area()
        &&& self.character@.len() == self.size.area()
        &&& self.feature@.len() == self.size.area()
    }

    /// Well-formedness: placement and reverse lookup are mutually
    /// consistent. Every recorded location lies on the grid and points at a
    /// cell that holds its entity, and every occupied cell is the recorded
    /// location of its occupant — so per cell and layer there is at most one
    /// occupant, and per entity at most one cell.
    pub closed spec fn wf(self) -> bool {
        &&& self.dims_ok()
        &&& forall|e: Entity| #[trigger]
            self.loc_of(e) matches Some(loc) ==> loc.coord.in_bounds(self.size)
                && self.entity_at(loc.layer, loc.coord.x as int, loc.coord.y as int) == Some(e)
        &&& forall|l: Layer, x: int, y: int| #[trigger]
            self.entity_at(l, x, y) matches Some(e) ==> self.loc_of(e) == Some(
                Location { coord: Coord { x: x as i32, y: y as i32 }, layer: l },
            )
    }

    /// An empty index over a grid of the given size: every cell on every
    /// layer is free and no entity is placed.
    pub fn new(size: Size) -> (t: SpatialTable)
        requires
            size.wf(),
            size.area() <= usize::MAX,
        ensures
            t.wf(),
            t.spec_size() == size,
            forall|l: Layer, x: int, y: int| #[trigger] t.entity_at(l, x, y) is None,
            forall|e: Entity| #[trigger] t.loc_of(e) is None,
    {
        let area: usize = (size.width as usize) * (size.height as usize);
        let floor = none_cells(area);
        let character = none_cells(area);
        let feature = none_cells(area);
        let t = SpatialTable { size, floor, character, feature, locations: Vec::new() };
        proof {
            assert forall|l: Layer, x: int, y: int| #[trigger] t.entity_at(l, x, y) is None by {
                if in_grid(size, x, y) {
                    lemma_flat_index_bound(x, y, size.width as int, size.height as int);
                }
            }
        }
        t
    }

    fn cell(&self, layer: Layer, coord: Coord) -> (r: Option<Entity>)
        requires
            self.dims_ok(),
            coord.in_bounds(self.spec_size()),
        ensures
            r == self.entity_at(layer, coord.x as int, coord.y as int),
    {
        proof {
            lemma_flat_index_bound(
                coord.x as int,
                coord.y as int,
                self.size.width as int,
                self.size.height as int,
            );
        }
        let i = flat_index(self.size, coord.x as u32, coord.y as u32);
        match layer {
            Layer::Floor => self.floor[i],
            Layer::Character => self.character[i],
            Layer::Feature => self.feature[i],
        }
    }

    fn set_cell(&mut self, layer: Layer, coord: Coord, v: Option<Entity>)
        requires
            old(self).dims_ok(),
            coord.in_bounds(old(self).spec_size()),
        ensures
            final(self).size == old(self).size,
            final(self).dims_ok(),
            final(self).locations == old(self).locations,
            final(self).grid(layer) == old(self).grid(layer).update(
                coord.y * old(self).size.width + coord.x,
                v,
            ),
            forall|l2: Layer| l2 != layer ==> final(self).grid(l2) == old(self).grid(l2),
    {
        proof {
            lemma_flat_index_bound(
                coord.x as int,
                coord.y as int,
                self.size.width as int,
                self.size.height as int,
            );
        }
        let i = flat_index(self.size, coord.x as u32, coord.y as u32);
        match layer {
            Layer::Floor => self.floor.set(i, v),
            Layer::Character => self.character.set(i, v),
            Layer::Feature => self.feature.set(i, v),
        }
    }

    /// O(1) reverse lookup: the location `entity` occupies, or `None` if it
    /// is unplaced.
    pub fn location_of(&self, entity: Entity) -> (r: Option<Location>)
        ensures
            r == self.loc_of(entity),
    {
        if entity.id < self.locations.len() {
            self.locations[entity.id]
        } else {
            None
        }
    }

    /// Convenience projection of [`Self::location_of`] onto the coordinate.
    pub fn coord_of(&self, entity: Entity) -> (r: Option<Coord>)
        ensures
            r == (match self.loc_of(entity) {
                Some(loc) => Some(loc.coord),
                None => None::<Coord>,
            }),
    {
        match self.location_of(entity) {
            Some(loc) => Some(loc.coord),
            None => None,
        }
    }

    /// O(1) point query: for each of the three layers, the entity occupying
    /// `coord` on that layer, if any.
    pub fn layers_at(&self, coord: Coord) -> (r: Layers)
        requires
            self.wf(),
            coord.in_bounds(self.spec_size()),
        ensures
            r.floor == self.entity_at(Layer::Floor, coord.x as int, coord.y as int),
            r.character == self.entity_at(Layer::Character, coord.x as int, coord.y as int),
            r.feature == self.entity_at(Layer::Feature, coord.x as int, coord.y as int),
    {
        Layers {
            floor: self.cell(Layer::Floor, coord),
            character: self.cell(Layer::Character, coord),
            feature: self.cell(Layer::Feature, coord),
        }
    }

    /// Places `entity` at `location`. Fails with [`SpatialError::Occupied`]
    /// if another entity already occupies that cell-layer pair; otherwise it
    /// atomically removes any prior location this entity held and installs
    /// the new one — there is no state in which the entity appears in two
    /// places or nowhere.
    pub fn update(&mut self, entity: Entity, location: Location) -> (r: Result<(), SpatialError>)
        requires
            old(self).wf(),
            location.coord.in_bounds(old(self).spec_size()),
            entity.id < usize::MAX,
        ensures
            final(self).wf(),
            final(self).spec_size() == old(self).spec_size(),
            (r matches Ok(_)) <==> (old(self).entity_at(
                location.layer,
                location.coord.x as int,
                location.coord.y as int,
            ) is None || old(self).entity_at(
                location.layer,
                location.coord.x as int,
                location.coord.y as int,
            ) == Some(entity)),
            r matches Err(err) ==> err == SpatialError::Occupied,
            r matches Err(_) ==> (forall|l: Layer, x: int, y: int| #[trigger]
                final(self).entity_at(l, x, y) == old(self).entity_at(l, x, y)) && (forall|
                e2: Entity,
            | #[trigger] final(self).loc_of(e2) == old(self).loc_of(e2)),
            r matches Ok(_) ==> final(self).loc_of(entity) == Some(location) && (forall|e2: Entity|
                e2 != entity ==> #[trigger] final(self).loc_of(e2) == old(self).loc_of(e2)) && (
            forall|l: Layer, x: int, y: int| #[trigger]
                final(self).entity_at(l, x, y) == (if l == location.layer && x
                    == location.coord.x && y == location.coord.y {
                    Some(entity)
                } else if old(self).entity_at(l, x, y) == Some(entity) {
                    None::<Entity>
                } else {
                    old(self).entity_at(l, x, y)
                })),
    {
        let occupant = self.cell(location.layer, location.coord);
        if let Some(other) = occupant {
            if other.id != entity.id {
                return Err(SpatialError::Occupied);
            }
        }
        let prev = self.location_of(entity);
        if let Some(prev_loc) = prev {
            self.set_cell(prev_loc.layer, prev_loc.coord, None);
        }
        let ghost s1 = *self;
        self.set_cell(location.layer, location.coord, Some(entity));
        let ghost mid = *self;
        while self.locations.len() <= entity.id
            invariant
                entity.id < usize::MAX,
                self.size == mid.size,
                self.floor@ == mid.floor@,
                self.character@ == mid.character@,
                self.feature@ == mid.feature@,
                mid.locations@.len() <= self.locations@.len(),
                forall|j: int|
                    0 <= j < self.locations@.len() ==> #[trigger] self.locations@[j] == (if j
                        < mid.locations@.len() {
                        mid.locations@[j]
                    } else {
                        None::<Location>
                    }),
            decreases entity.id + 1 - self.locations@.len(),
        {
            self.locations.push(None);
        }
        self.locations.set(entity.id, Some(location));
        proof {
            self.lemma_update_shape(*old(self), s1, mid, entity, location, prev);
        }
        Ok(())
    }

    /// Establishes the postconditions of a successful `update`, relating the
    /// final state (`self`) to the starting one through the intermediate
    /// states `s1` (prior cell cleared) and `mid` (target cell set).
    proof fn lemma_update_shape(
        self,
        orig: SpatialTable,
        s1: SpatialTable,
        mid: SpatialTable,
        entity: Entity,
        location: Location,
        prev: Option<Location>,
    )
        requires
            orig.wf(),
            location.coord.in_bounds(orig.spec_size()),
            entity.id < usize::MAX,
            prev == orig.loc_of(entity),
            orig.entity_at(
                location.layer,
                location.coord.x as int,
                location.coord.y as int,
            ) is None || orig.entity_at(
                location.layer,
                location.coord.x as int,
                location.coord.y as int,
            ) == Some(entity),
            prev is None ==> s1 == orig,
            prev matches Some(prev_loc) ==> s1.size == orig.size && s1.locations@
                == orig.locations@ && s1.grid(prev_loc.layer) == orig.grid(prev_loc.layer).update(
                prev_loc.coord.y * orig.size.width + prev_loc.coord.x,
                None::<Entity>,
            ) && (forall|l2: Layer| l2 != prev_loc.layer ==> s1.grid(l2) == orig.grid(l2)),
            mid.size == s1.size,
            mid.locations@ == s1.locations@,
            mid.grid(location.layer) == s1.grid(location.layer).update(
                location.coord.y * orig.size.width + location.coord.x,
                Some(entity),
            ),
            forall|l2: Layer| l2 != location.layer ==> mid.grid(l2) == s1.grid(l2),
            self.size == mid.size,
            self.floor@ == mid.floor@,
            self.character@ == mid.character@,
            self.feature@ == mid.feature@,
            self.locations@.len() > entity.id,
            self.locations@.len() >= orig.locations@.len(),
            forall|j: int|
                0 <= j < self.locations@.len() && j != entity.id ==> #[trigger] self.locations@[j]
                    == (if j < orig.locations@.len() {
                    orig.locations@[j]
                } else {
                    None::<Location>
                }),
            self.locations@[entity.id as int] == Some(location),
        ensures
            self.wf(),
            self.spec_size() == orig.spec_size(),
            self.loc_of(entity) == Some(location),
            forall|e2: Entity| e2 != entity ==> #[trigger] self.loc_of(e2) == orig.loc_of(e2),
            forall|l: Layer, x: int, y: int| #[trigger]
                self.entity_at(l, x, y) == (if l == location.layer && x == location.coord.x && y
                    == location.coord.y {
                    Some(entity)
                } else if orig.entity_at(l, x, y) == Some(entity) {
                    None::<Entity>
                } else {
                    orig.entity_at(l, x, y)
                }),
    {
        let w = orig.size.width as int;
        let h = orig.size.height as int;
        let cx = location.coord.x as int;
        let cy = location.coord.y as int;
        // reverse map: only the entry of `entity` changed
        assert forall|e2: Entity| e2 != entity implies #[trigger] self.loc_of(e2) == orig.loc_of(
            e2,
        ) by {
            assert(e2.id != entity.id);
        }
        // the cells that held `entity` in `orig` are exactly its recorded
        // location
        assert forall|l: Layer, x: int, y: int| #[trigger]
            orig.entity_at(l, x, y) == Some(entity) implies in_grid(orig.size, x, y) && prev
            == Some(Location { coord: Coord { x: x as i32, y: y as i32 }, layer: l }) by {}
        // per-cell shape of the final grids
        assert forall|l: Layer, x: int, y: int| #[trigger]
            self.entity_at(l, x, y) == (if l == location.layer && x == cx && y == cy {
                Some(entity)
            } else if orig.entity_at(l, x, y) == Some(entity) {
                None::<Entity>
            } else {
                orig.entity_at(l, x, y)
            }) by {
            if in_grid(orig.size, x, y) {
                lemma_flat_index_bound(x, y, w, h);
                lemma_flat_index_bound(cx, cy, w, h);
                lemma_flat_index_injective(x, y, cx, cy, w, h);
                if l != location.layer {
                    assert(mid.grid(l) == s1.grid(l));
                }
                if let Some(prev_loc) = prev {
                    let px = prev_loc.coord.x as int;
                    let py = prev_loc.coord.y as int;
                    assert(prev_loc.coord.in_bounds(orig.size));
                    lemma_flat_index_bound(px, py, w, h);
                    lemma_flat_index_injective(x, y, px, py, w, h);
                    if l != prev_loc.layer {
                        assert(s1.grid(l) == orig.grid(l));
                    }
                }
            }
        }
        // well-formedness of the final state: locations point at their cells
        assert forall|e: Entity| (#[trigger] self.loc_of(e)) is Some implies ({
            let loc = self.loc_of(e)->Some_0;
            loc.coord.in_bounds(self.size) && self.entity_at(
                loc.layer,
                loc.coord.x as int,
                loc.coord.y as int,
            ) == Some(e)
        }) by {
            if e.id == entity.id {
                assert(self.loc_of(e) == Some(location));
                assert(self.entity_at(location.layer, cx, cy) == Some(entity));
            } else {
                let loc = self.loc_of(e)->Some_0;
                assert(orig.loc_of(e) == Some(loc));
                assert(orig.entity_at(loc.layer, loc.coord.x as int, loc.coord.y as int) == Some(
                    e,
                ));
            }
        }
        // and occupied cells carry their occupant's location
        assert forall|l: Layer, x: int, y: int| (#[trigger] self.entity_at(l, x, y)) is Some
            implies ({
            let e = self.entity_at(l, x, y)->Some_0;
            self.loc_of(e) == Some(Location { coord: Coord { x: x as i32, y: y as i32 }, layer: l })
        }) by {
            let e = self.entity_at(l, x, y)->Some_0;
            if l == location.layer && x == cx && y == cy {
                assert(self.entity_at(l, x, y) == Some(entity));
            } else if orig.entity_at(l, x, y) == Some(entity) {
            } else {
                assert(orig.entity_at(l, x, y) == Some(e));
                assert(e != entity);
            }
        }
        // the representation sizes are untouched by the updates
        assert forall|l2: Layer| (#[trigger] mid.grid(l2)).len() == orig.grid(l2).len() by {
            lemma_flat_index_bound(cx, cy, w, h);
            assert(orig.grid(l2).len() == orig.size.area());
            if l2 != location.layer {
                assert(mid.grid(l2) == s1.grid(l2));
            }
            if let Some(prev_loc) = prev {
                assert(prev_loc.coord.in_bounds(orig.size));
                lemma_flat_index_bound(prev_loc.coord.x as int, prev_loc.coord.y as int, w, h);
                if l2 != prev_loc.layer {
                    assert(s1.grid(l2) == orig.grid(l2));
                }
            }
        }
        assert(self.floor@ == mid.grid(Layer::Floor));
        assert(self.character@ == mid.grid(Layer::Character));
        assert(self.feature@ == mid.grid(Layer::Feature));
        assert(orig.floor@ == orig.grid(Layer::Floor));
        assert(orig.character@ == orig.grid(Layer::Character));
        assert(orig.feature@ == orig.grid(Layer::Feature));
        assert(self.dims_ok());
        assert(self.wf());
    }

    /// Like [`Self::update`], but keeps the entity's existing layer and
    /// moves only the coordinate. Fails with [`SpatialError::NotPlaced`] if
    /// the entity has no location, and with [`SpatialError::Occupied`] as
    /// `update` does.
    pub fn update_coord(&mut self, entity: Entity, coord: Coord) -> (r: Result<(), SpatialError>)
        requires
            old(self).wf(),
            coord.in_bounds(old(self).spec_size()),
            entity.id < usize::MAX,
        ensures
            final(self).wf(),
            final(self).spec_size() == old(self).spec_size(),
            old(self).loc_of(entity) is None ==> r == Err::<(), SpatialError>(
                SpatialError::NotPlaced,
            ) && *final(self) == *old(self),
            (old(self).loc_of(entity) matches Some(prev) ==> {
                &&& ((r matches Ok(_)) <==> (old(self).entity_at(
                    prev.layer,
                    coord.x as int,
                    coord.y as int,
                ) is None || old(self).entity_at(prev.layer, coord.x as int, coord.y as int)
                    == Some(entity)))
                &&& (r matches Err(err) ==> err == SpatialError::Occupied)
                &&& (r matches Err(_) ==> (forall|l: Layer, x: int, y: int| #[trigger]
                    final(self).entity_at(l, x, y) == old(self).entity_at(l, x, y)) && (forall|
                    e2: Entity,
                | #[trigger] final(self).loc_of(e2) == old(self).loc_of(e2)))
                &&& (r matches Ok(_) ==> final(self).loc_of(entity) == Some(
                    Location { coord, layer: prev.layer },
                ) && (forall|e2: Entity|
                    e2 != entity ==> #[trigger] final(self).loc_of(e2) == old(self).loc_of(e2))
                    && (forall|l: Layer, x: int, y: int| #[trigger]
                    final(self).entity_at(l, x, y) == (if l == prev.layer && x == coord.x && y
                        == coord.y {
                        Some(entity)
                    } else if old(self).entity_at(l, x, y) == Some(entity) {
                        None::<Entity>
                    } else {
                        old(self).entity_at(l, x, y)
                    })))
            }),
    {
        match self.location_of(entity) {
            None => Err(SpatialError::NotPlaced),
            Some(loc) => self.update(entity, Location { coord, layer: loc.layer }),
        }
    }
}

fn none_cells(n: usize) -> (v: Vec<Option<Entity>>)
    ensures
        v@.len() == n,
        forall|i: int| 0 <= i < n ==> #[trigger] v@[i] is None,
{
    let mut v: Vec<Option<Entity>> = Vec::new();
    while v.len() < n
        invariant
            v@.len() <= n,
            forall|i: int| 0 <= i < v@.len() ==> #[trigger] v@[i] is None,
        decreases n - v@.len(),
    {
        v.push(None);
    }
    v
}

/// Spatial exclusivity: for any layer and coordinate, at most one entity's
/// location resolves to that cell. Every operation of [`SpatialTable`]
/// preserves [`SpatialTable::wf`], so this holds after any sequence of valid
/// `update` / `update_coord` calls.
pub proof fn lemma_spatial_exclusivity(
    t: SpatialTable,
    e1: Entity,
    e2: Entity,
    c: Coord,
    l: Layer,
)
    requires
        t.wf(),
        t.loc_of(e1) == Some(Location { coord: c, layer: l }),
        t.loc_of(e2) == Some(Location { coord: c, layer: l }),
    ensures
        e1 == e2,
{
    assert(t.entity_at(l, c.x as int, c.y as int) == Some(e1));
    assert(t.entity_at(l, c.x as int, c.y as int) == Some(e2));
}

/// A cell's occupant is a placed entity: if some cell reports an entity,
/// that cell lies on the grid and is the entity's recorded location.
pub proof fn lemma_occupant_is_placed(t: SpatialTable, l: Layer, x: int, y: int)
    requires
        t.wf(),
    ensures
        t.entity_at(l, x, y) matches Some(e) ==> in_grid(t.spec_size(), x, y) && t.loc_of(e)
            == Some(Location { coord: Coord { x: x as i32, y: y as i32 }, layer: l }),
{
}

/// Reverse-lookup consistency: an entity's recorded location names a cell
/// that reports that entity, and a cell's occupant records that cell as its
/// location.
pub proof fn lemma_reverse_lookup_consistency(t: SpatialTable, e: Entity, c: Coord, l: Layer)
    requires
        t.wf(),
    ensures
        t.loc_of(e) == Some(Location { coord: c, layer: l }) ==> c.in_bounds(t.spec_size())
            && t.entity_at(l, c.x as int, c.y as int) == Some(e),
        c.in_bounds(t.spec_size()) && t.entity_at(l, c.x as int, c.y as int) == Some(e)
            ==> t.loc_of(e) == Some(Location { coord: c, layer: l }),
{
}

} // verus!
