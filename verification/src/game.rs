//! The game state: composition of the entity allocator, the component store
//! and the spatial index. It owns population from terrain, the
//! movement/collision rule, and the render projection.

use vstd::prelude::*;

use crate::components::{Tile, TileTable};
use crate::entity::{Entity, EntityAllocator};
use crate::geometry::{flat_index, in_grid, CardinalDirection, Coord, Size};
use crate::spatial::{Layer, Location, SpatialTable};

verus! {

/// A tile classification produced by the external terrain generator. The
/// generator is consumed as an opaque producer of a grid of these values.
#[derive(Clone, Copy, Debug, PartialEq, Eq, Structural)]
pub enum TerrainTile {
    Player,
    Floor,
    Wall,
}

/// The terrain tile of cell `(x, y)` in a row-major grid of size `s`.
pub open spec fn terrain_at(t: Seq<TerrainTile>, s: Size, x: int, y: int) -> TerrainTile {
    t[y * s.width + x]
}

/// Exactly one cell of the terrain is a Player cell.
pub open spec fn unique_player_cell(t: Seq<TerrainTile>, s: Size) -> bool {
    exists|x: int, y: int|
        {
            &&& in_grid(s, x, y)
            &&& (#[trigger] terrain_at(t, s, x, y)) == TerrainTile::Player
            &&& (forall|x2: int, y2: int|
                in_grid(s, x2, y2) && (#[trigger] terrain_at(t, s, x2, y2))
                    == TerrainTile::Player ==> x2 == x && y2 == y)
        }
}

/// Whether the cell `(x, y)` comes strictly before the cursor `(cx, cy)` in
/// row-major order — i.e. population has already processed it.
spec fn row_major_done(x: int, y: int, cx: int, cy: int) -> bool {
    y < cy || (y == cy && x < cx)
}

/// One entry of the render projection: what to draw, and where.
#[derive(Clone, Copy, Debug, PartialEq, Eq, Structural)]
pub struct EntityToRender {
    pub tile: Tile,
    pub location: Location,
}

/// The complete runtime state of the game: the three stores plus the
/// designated player entity.
pub struct GameState {
    screen_size: Size,
    entity_allocator: EntityAllocator,
    components: TileTable,
    spatial_table: SpatialTable,
    player_entity: Entity,
}

impl GameState {
    /// The grid size the state was created with.
    pub closed spec fn spec_size(self) -> Size {
        self.screen_size
    }

    /// The designated player entity.
    pub closed spec fn spec_player(self) -> Entity {
        self.player_entity
    }

    /// The spatial index.
    pub closed spec fn spatial(self) -> SpatialTable {
        self.spatial_table
    }

    /// The component store.
    pub closed spec fn tiles(self) -> TileTable {
        self.components
    }

    /// The entity allocator.
    pub closed spec fn allocator(self) -> EntityAllocator {
        self.entity_allocator
    }

    /// The game-state invariant, established by construction and preserved
    /// by every operation: the spatial index is well formed and agrees with
    /// the grid size; every placed or classified entity was issued by the
    /// allocator; classification and placement go together; the player is
    /// placed on the Character layer and is the only entity classified
    /// Player; every cell has a Floor-layer entity classified Floor; every
    /// Feature-layer occupant is a Wall; and the Character layer holds only
    /// the player.
    pub open spec fn inv(self) -> bool {
        &&& self.spatial().wf()
        &&& self.spatial().spec_size() == self.spec_size()
        &&& self.spec_size().wf()
        &&& self.spec_size().area() <= usize::MAX
        &&& (forall|e: Entity|
            (#[trigger] self.spatial().loc_of(e)) is Some ==> self.allocator().has_allocated(e))
        &&& (forall|e: Entity|
            (#[trigger] self.tiles().tile_of(e)) is Some ==> self.allocator().has_allocated(e))
        &&& (forall|e: Entity|
            #![trigger self.tiles().tile_of(e)]
            #![trigger self.spatial().loc_of(e)]
            (self.tiles().tile_of(e) is Some <==> self.spatial().loc_of(e) is Some))
        &&& self.spatial().loc_of(self.spec_player()) matches Some(loc) && loc.layer
            == Layer::Character && loc.coord.in_bounds(self.spec_size())
        &&& self.tiles().tile_of(self.spec_player()) == Some(Tile::Player)
        &&& (forall|e: Entity|
            (#[trigger] self.tiles().tile_of(e)) == Some(Tile::Player) ==> e == self.spec_player())
        &&& (forall|x: int, y: int|
            in_grid(self.spec_size(), x, y) ==> (#[trigger] self.spatial().entity_at(
                Layer::Floor,
                x,
                y,
            )) is Some && self.tiles().tile_of(
                self.spatial().entity_at(Layer::Floor, x, y)->Some_0,
            ) == Some(Tile::Floor))
        &&& (forall|x: int, y: int|
            in_grid(self.spec_size(), x, y) && (#[trigger] self.spatial().entity_at(
                Layer::Feature,
                x,
                y,
            )) is Some ==> self.tiles().tile_of(
                self.spatial().entity_at(Layer::Feature, x, y)->Some_0,
            ) == Some(Tile::Wall))
        &&& (forall|x: int, y: int|
            in_grid(self.spec_size(), x, y) && (#[trigger] self.spatial().entity_at(
                Layer::Character,
                x,
                y,
            )) is Some ==> self.spatial().entity_at(Layer::Character, x, y) == Some(
                self.spec_player(),
            ))
    }

    /// The player's current coordinate (meaningful under [`Self::inv`],
    /// which guarantees the player is placed).
    pub open spec fn spec_player_coord(self) -> Coord {
        (match self.spatial().loc_of(self.spec_player()) {
            Some(loc) => loc.coord,
            None => Coord { x: 0, y: 0 },
        })
    }

    /// Horizontal coordinate one step from the player in `direction`.
    pub open spec fn move_target_x(self, direction: CardinalDirection) -> int {
        self.spec_player_coord().x + direction.offset_x()
    }

    /// Vertical coordinate one step from the player in `direction`.
    pub open spec fn move_target_y(self, direction: CardinalDirection) -> int {
        self.spec_player_coord().y + direction.offset_y()
    }

    /// The movement rule: a move is rejected exactly when the target cell
    /// lies off the grid, or its Character or Feature layer is occupied.
    /// Floor-layer occupancy is never checked — floors are walkable.
    pub open spec fn move_blocked(self, direction: CardinalDirection) -> bool {
        ||| !in_grid(
            self.spec_size(),
            self.move_target_x(direction),
            self.move_target_y(direction),
        )
        ||| self.spatial().entity_at(
            Layer::Character,
            self.move_target_x(direction),
            self.move_target_y(direction),
        ) is Some
        ||| self.spatial().entity_at(
            Layer::Feature,
            self.move_target_x(direction),
            self.move_target_y(direction),
        ) is Some
    }

    /// Spawns a fresh entity classified `tile` at `coord` on `layer`.
    /// Callers guarantee the destination cell is free.
    fn spawn_at(&mut self, coord: Coord, layer: Layer, tile: Tile) -> (e: Entity)
        requires
            old(self).spatial_table.wf(),
            old(self).spatial_table.spec_size() == old(self).screen_size,
            old(self).screen_size.wf(),
            coord.in_bounds(old(self).screen_size),
            old(self).spatial_table.entity_at(layer, coord.x as int, coord.y as int) is None,
            old(self).entity_allocator.next_id < usize::MAX,
            forall|e: Entity|
                (#[trigger] old(self).spatial_table.loc_of(e)) is Some ==> old(
                    self,
                ).entity_allocator.has_allocated(e),
            forall|e: Entity|
                (#[trigger] old(self).components.tile_of(e)) is Some ==> old(
                    self,
                ).entity_allocator.has_allocated(e),
        ensures
            e == (Entity { id: old(self).entity_allocator.next_id }),
            final(self).screen_size == old(self).screen_size,
            final(self).player_entity == old(self).player_entity,
            final(self).spatial_table.wf(),
            final(self).spatial_table.spec_size() == old(self).screen_size,
            final(self).entity_allocator.next_id == old(self).entity_allocator.next_id + 1,
            final(self).spatial_table.loc_of(e) == Some(Location { coord, layer }),
            final(self).components.tile_of(e) == Some(tile),
            forall|e2: Entity|
                e2 != e ==> #[trigger] final(self).spatial_table.loc_of(e2) == old(
                    self,
                ).spatial_table.loc_of(e2),
            forall|e2: Entity|
                e2 != e ==> #[trigger] final(self).components.tile_of(e2) == old(
                    self,
                ).components.tile_of(e2),
            forall|l: Layer, x: int, y: int| #[trigger]
                final(self).spatial_table.entity_at(l, x, y) == (if l == layer && x == coord.x && y
                    == coord.y {
                    Some(e)
                } else {
                    old(self).spatial_table.entity_at(l, x, y)
                }),
    {
        let entity = self.entity_allocator.allocate();
        proof {
            // the fresh entity is neither placed nor classified
            if self.spatial_table.loc_of(entity) is Some {
                assert(old(self).entity_allocator.has_allocated(entity));
            }
            if self.components.tile_of(entity) is Some {
                assert(old(self).entity_allocator.has_allocated(entity));
            }
        }
        let res = self.spatial_table.update(entity, Location { coord, layer });
        match res {
            Ok(_) => {},
            Err(_) => {
                proof {
                    assert(false);
                }
            },
        }
        self.components.insert(entity, tile);
        proof {
            assert forall|l: Layer, x: int, y: int| #[trigger]
                self.spatial_table.entity_at(l, x, y) == (if l == layer && x == coord.x && y
                    == coord.y {
                    Some(entity)
                } else {
                    old(self).spatial_table.entity_at(l, x, y)
                }) by {
                if old(self).spatial_table.entity_at(l, x, y) == Some(entity) {
                    crate::spatial::lemma_occupant_is_placed(old(self).spatial_table, l, x, y);
                    assert(false);
                }
            }
        }
        entity
    }

    /// Places the pre-allocated player entity at `coord` on the Character
    /// layer and classifies it Player. Callers guarantee the cell is free
    /// and the player is not yet placed.
    fn spawn_player(&mut self, coord: Coord)
        requires
            old(self).spatial_table.wf(),
            old(self).spatial_table.spec_size() == old(self).screen_size,
            old(self).screen_size.wf(),
            coord.in_bounds(old(self).screen_size),
            old(self).spatial_table.entity_at(
                Layer::Character,
                coord.x as int,
                coord.y as int,
            ) is None,
            old(self).spatial_table.loc_of(old(self).player_entity) is None,
            old(self).entity_allocator.has_allocated(old(self).player_entity),
        ensures
            final(self).screen_size == old(self).screen_size,
            final(self).player_entity == old(self).player_entity,
            final(self).entity_allocator == old(self).entity_allocator,
            final(self).spatial_table.wf(),
            final(self).spatial_table.spec_size() == old(self).screen_size,
            final(self).spatial_table.loc_of(old(self).player_entity) == Some(
                Location { coord, layer: Layer::Character },
            ),
            final(self).components.tile_of(old(self).player_entity) == Some(Tile::Player),
            forall|e2: Entity|
                e2 != old(self).player_entity ==> #[trigger] final(self).spatial_table.loc_of(e2)
                    == old(self).spatial_table.loc_of(e2),
            forall|e2: Entity|
                e2 != old(self).player_entity ==> #[trigger] final(self).components.tile_of(e2)
                    == old(self).components.tile_of(e2),
            forall|l: Layer, x: int, y: int| #[trigger]
                final(self).spatial_table.entity_at(l, x, y) == (if l == Layer::Character && x
                    == coord.x && y == coord.y {
                    Some(old(self).player_entity)
                } else {
                    old(self).spatial_table.entity_at(l, x, y)
                }),
    {
        let player = self.player_entity;
        let res = self.spatial_table.update(player, Location { coord, layer: Layer::Character });
        match res {
            Ok(_) => {},
            Err(_) => {
                proof {
                    assert(false);
                }
            },
        }
        self.components.insert(player, Tile::Player);
        proof {
            assert forall|l: Layer, x: int, y: int| #[trigger]
                self.spatial_table.entity_at(l, x, y) == (if l == Layer::Character && x == coord.x
                    && y == coord.y {
                    Some(old(self).player_entity)
                } else {
                    old(self).spatial_table.entity_at(l, x, y)
                }) by {
                if old(self).spatial_table.entity_at(l, x, y) == Some(old(self).player_entity) {
                    crate::spatial::lemma_occupant_is_placed(old(self).spatial_table, l, x, y);
                    assert(false);
                }
            }
        }
    }

    /// Populates one terrain cell: always a fresh Floor entity on the Floor
    /// layer; additionally the player on the Character layer for a Player
    /// cell, or a fresh Wall entity on the Feature layer for a Wall cell.
    fn spawn_cell(&mut self, coord: Coord, t: TerrainTile)
        requires
            old(self).spatial_table.wf(),
            old(self).spatial_table.spec_size() == old(self).screen_size,
            old(self).screen_size.wf(),
            coord.in_bounds(old(self).screen_size),
            old(self).spatial_table.entity_at(Layer::Floor, coord.x as int, coord.y as int) is None,
            old(self).spatial_table.entity_at(
                Layer::Character,
                coord.x as int,
                coord.y as int,
            ) is None,
            old(self).spatial_table.entity_at(
                Layer::Feature,
                coord.x as int,
                coord.y as int,
            ) is None,
            old(self).entity_allocator.next_id + 2 <= usize::MAX,
            forall|e: Entity|
                (#[trigger] old(self).spatial_table.loc_of(e)) is Some ==> old(
                    self,
                ).entity_allocator.has_allocated(e),
            forall|e: Entity|
                (#[trigger] old(self).components.tile_of(e)) is Some ==> old(
                    self,
                ).entity_allocator.has_allocated(e),
            t == TerrainTile::Player ==> old(self).spatial_table.loc_of(
                old(self).player_entity,
            ) is None && old(self).components.tile_of(old(self).player_entity) is None && old(
                self,
            ).entity_allocator.has_allocated(old(self).player_entity),
        ensures
            final(self).screen_size == old(self).screen_size,
            final(self).player_entity == old(self).player_entity,
            final(self).spatial_table.wf(),
            final(self).spatial_table.spec_size() == old(self).screen_size,
            final(self).entity_allocator.next_id == old(self).entity_allocator.next_id + (
            if t == TerrainTile::Wall {
                2int
            } else {
                1int
            }),
            forall|e: Entity|
                (#[trigger] final(self).spatial_table.loc_of(e)) is Some ==> final(
                    self).entity_allocator.has_allocated(e),
            forall|e: Entity|
                (#[trigger] final(self).components.tile_of(e)) is Some ==> final(
                    self).entity_allocator.has_allocated(e),
            // net effect on the grids
            forall|l: Layer, x: int, y: int| #[trigger]
                final(self).spatial_table.entity_at(l, x, y) == (if l == Layer::Floor && x
                    == coord.x && y == coord.y {
                    Some(Entity { id: old(self).entity_allocator.next_id })
                } else if t == TerrainTile::Player && l == Layer::Character && x == coord.x && y
                    == coord.y {
                    Some(old(self).player_entity)
                } else if t == TerrainTile::Wall && l == Layer::Feature && x == coord.x && y
                    == coord.y {
                    Some(Entity { id: (old(self).entity_allocator.next_id + 1) as usize })
                } else {
                    old(self).spatial_table.entity_at(l, x, y)
                }),
            // net effect on the reverse map
            final(self).spatial_table.loc_of(Entity { id: old(self).entity_allocator.next_id })
                == Some(Location { coord, layer: Layer::Floor }),
            t == TerrainTile::Player ==> final(self).spatial_table.loc_of(
                old(self).player_entity,
            ) == Some(Location { coord, layer: Layer::Character }),
            t == TerrainTile::Wall ==> final(self).spatial_table.loc_of(
                Entity { id: (old(self).entity_allocator.next_id + 1) as usize },
            ) == Some(Location { coord, layer: Layer::Feature }),
            forall|e2: Entity|
                e2.id != old(self).entity_allocator.next_id && !(t == TerrainTile::Player && e2
                    == old(self).player_entity) && !(t == TerrainTile::Wall && e2.id == old(
                    self,
                ).entity_allocator.next_id + 1) ==> #[trigger] final(self).spatial_table.loc_of(e2)
                    == old(self).spatial_table.loc_of(e2),
            // net effect on the component store
            final(self).components.tile_of(Entity { id: old(self).entity_allocator.next_id })
                == Some(Tile::Floor),
            t == TerrainTile::Player ==> final(self).components.tile_of(old(self).player_entity)
                == Some(Tile::Player),
            t == TerrainTile::Wall ==> final(self).components.tile_of(
                Entity { id: (old(self).entity_allocator.next_id + 1) as usize },
            ) == Some(Tile::Wall),
            forall|e2: Entity|
                e2.id != old(self).entity_allocator.next_id && !(t == TerrainTile::Player && e2
                    == old(self).player_entity) && !(t == TerrainTile::Wall && e2.id == old(
                    self,
                ).entity_allocator.next_id + 1) ==> #[trigger] final(self).components.tile_of(e2)
                    == old(self).components.tile_of(e2),
    {
        let ghost n0 = old(self).entity_allocator.next_id as int;
        let floor_entity = self.spawn_at(coord, Layer::Floor, Tile::Floor);
        let ghost g1 = *self;
        proof {
            assert forall|e: Entity| (#[trigger] g1.spatial_table.loc_of(e)) is Some implies g1
                .entity_allocator.has_allocated(e) by {
                if e != floor_entity {
                    assert(g1.spatial_table.loc_of(e) == old(self).spatial_table.loc_of(e));
                }
            }
            assert forall|e: Entity| (#[trigger] g1.components.tile_of(e)) is Some implies g1
                .entity_allocator.has_allocated(e) by {
                if e != floor_entity {
                    assert(g1.components.tile_of(e) == old(self).components.tile_of(e));
                }
            }
        }
        match t {
            TerrainTile::Player => {
                self.spawn_player(coord);
            },
            TerrainTile::Floor => {},
            TerrainTile::Wall => {
                let _wall_entity = self.spawn_at(coord, Layer::Feature, Tile::Wall);
            },
        }
        proof {
            assert forall|e: Entity| (#[trigger] self.spatial_table.loc_of(e)) is Some implies self
                .entity_allocator.has_allocated(e) by {
                if e.id != n0 && !(t == TerrainTile::Player && e == old(self).player_entity) && !(t
                    == TerrainTile::Wall && e.id == n0 + 1) {
                    assert(self.spatial_table.loc_of(e) == g1.spatial_table.loc_of(e));
                    assert(g1.spatial_table.loc_of(e) == old(self).spatial_table.loc_of(e));
                }
            }
            assert forall|e: Entity| (#[trigger] self.components.tile_of(e)) is Some implies self
                .entity_allocator.has_allocated(e) by {
                if e.id != n0 && !(t == TerrainTile::Player && e == old(self).player_entity) && !(t
                    == TerrainTile::Wall && e.id == n0 + 1) {
                    assert(self.components.tile_of(e) == g1.components.tile_of(e));
                    assert(g1.components.tile_of(e) == old(self).components.tile_of(e));
                }
            }
            assert forall|l: Layer, x: int, y: int| #[trigger]
                self.spatial_table.entity_at(l, x, y) == (if l == Layer::Floor && x == coord.x && y
                    == coord.y {
                    Some(Entity { id: n0 as usize })
                } else if t == TerrainTile::Player && l == Layer::Character && x == coord.x && y
                    == coord.y {
                    Some(old(self).player_entity)
                } else if t == TerrainTile::Wall && l == Layer::Feature && x == coord.x && y
                    == coord.y {
                    Some(Entity { id: (n0 + 1) as usize })
                } else {
                    old(self).spatial_table.entity_at(l, x, y)
                }) by {
                assert(g1.spatial_table.entity_at(l, x, y) == (if l == Layer::Floor && x == coord.x
                    && y == coord.y {
                    Some(floor_entity)
                } else {
                    old(self).spatial_table.entity_at(l, x, y)
                }));
            }
        }
    }

    /// The population loop invariant: the cells before the cursor `(cx, cy)`
    /// (row-major) are fully populated according to the terrain, the cells
    /// after it are untouched, and the cross-structure relations of
    /// [`Self::inv`] already hold for what exists. `(px, py)` is the unique
    /// Player cell of the terrain.
    spec fn pop_inv(self, t: Seq<TerrainTile>, px: int, py: int, cx: int, cy: int) -> bool {
        let s = self.screen_size;
        &&& self.spatial_table.wf()
        &&& self.spatial_table.spec_size() == s
        &&& s.wf()
        &&& t.len() == s.area()
        &&& 2 * s.area() + 1 <= usize::MAX
        &&& in_grid(s, px, py)
        &&& terrain_at(t, s, px, py) == TerrainTile::Player
        &&& (forall|x2: int, y2: int|
            in_grid(s, x2, y2) && (#[trigger] terrain_at(t, s, x2, y2)) == TerrainTile::Player
                ==> x2 == px && y2 == py)
        &&& 0 <= cy <= s.height
        &&& 0 <= cx <= s.width
        &&& 1 <= self.entity_allocator.next_id
        &&& self.entity_allocator.next_id <= 1 + 2 * (cy * s.width + cx)
        &&& self.entity_allocator.has_allocated(self.player_entity)
        &&& (forall|e: Entity|
            (#[trigger] self.spatial_table.loc_of(e)) is Some
                ==> self.entity_allocator.has_allocated(e))
        &&& (forall|e: Entity|
            (#[trigger] self.components.tile_of(e)) is Some
                ==> self.entity_allocator.has_allocated(e))
        &&& (forall|e: Entity|
            #![trigger self.components.tile_of(e)]
            #![trigger self.spatial_table.loc_of(e)]
            (self.components.tile_of(e) is Some <==> self.spatial_table.loc_of(e) is Some))
        &&& (forall|e: Entity|
            (#[trigger] self.components.tile_of(e)) == Some(Tile::Player) ==> e
                == self.player_entity)
        &&& (forall|x: int, y: int|
            in_grid(s, x, y) && row_major_done(x, y, cx, cy) ==> (
            #[trigger] self.spatial_table.entity_at(Layer::Floor, x, y)) is Some
                && self.components.tile_of(
                self.spatial_table.entity_at(Layer::Floor, x, y)->Some_0,
            ) == Some(Tile::Floor))
        &&& (forall|x: int, y: int|
            in_grid(s, x, y) && !row_major_done(x, y, cx, cy) ==> (
            #[trigger] self.spatial_table.entity_at(Layer::Floor, x, y)) is None)
        &&& (forall|x: int, y: int|
            in_grid(s, x, y) ==> (((#[trigger] self.spatial_table.entity_at(
                Layer::Feature,
                x,
                y,
            )) is Some) <==> (row_major_done(x, y, cx, cy) && terrain_at(t, s, x, y)
                == TerrainTile::Wall)))
        &&& (forall|x: int, y: int|
            in_grid(s, x, y) && (#[trigger] self.spatial_table.entity_at(
                Layer::Feature,
                x,
                y,
            )) is Some ==> self.components.tile_of(
                self.spatial_table.entity_at(Layer::Feature, x, y)->Some_0,
            ) == Some(Tile::Wall))
        &&& (forall|x: int, y: int|
            in_grid(s, x, y) ==> (((#[trigger] self.spatial_table.entity_at(
                Layer::Character,
                x,
                y,
            )) is Some) <==> (row_major_done(x, y, cx, cy) && x == px && y == py)))
        &&& (forall|x: int, y: int|
            in_grid(s, x, y) && (#[trigger] self.spatial_table.entity_at(
                Layer::Character,
                x,
                y,
            )) is Some ==> self.spatial_table.entity_at(Layer::Character, x, y) == Some(
                self.player_entity,
            ))
        &&& (row_major_done(px, py, cx, cy) ==> self.spatial_table.loc_of(self.player_entity)
            == Some(
            Location { coord: Coord { x: px as i32, y: py as i32 }, layer: Layer::Character },
        ) && self.components.tile_of(self.player_entity) == Some(Tile::Player))
        &&& (!row_major_done(px, py, cx, cy) ==> self.spatial_table.loc_of(
            self.player_entity,
        ) is None && self.components.tile_of(self.player_entity) is None)
    }

    /// Consumes the terrain grid once, walking it in row-major order and
    /// spawning the entities of each cell.
    #[verifier::loop_isolation(false)]
    fn populate(&mut self, terrain: &Vec<TerrainTile>)
        requires
            old(self).screen_size.wf(),
            2 * old(self).screen_size.area() + 1 <= usize::MAX,
            terrain@.len() == old(self).screen_size.area(),
            unique_player_cell(terrain@, old(self).screen_size),
            old(self).spatial_table.wf(),
            old(self).spatial_table.spec_size() == old(self).screen_size,
            forall|l: Layer, x: int, y: int| #[trigger]
                old(self).spatial_table.entity_at(l, x, y) is None,
            forall|e: Entity| (#[trigger] old(self).spatial_table.loc_of(e)) is None,
            forall|e: Entity| (#[trigger] old(self).components.tile_of(e)) is None,
            old(self).entity_allocator.next_id == 1,
            old(self).player_entity.id == 0,
        ensures
            final(self).inv(),
            final(self).screen_size == old(self).screen_size,
            final(self).player_entity == old(self).player_entity,
            forall|x: int, y: int|
                in_grid(old(self).screen_size, x, y) ==> (((#[trigger] final(
                    self).spatial_table.entity_at(Layer::Feature, x, y)) is Some) <==> terrain_at(
                    terrain@,
                    old(self).screen_size,
                    x,
                    y,
                ) == TerrainTile::Wall),
            forall|x: int, y: int|
                in_grid(old(self).screen_size, x, y) ==> (((#[trigger] final(
                    self).spatial_table.entity_at(Layer::Character, x, y)) is Some) <==> terrain_at(
                    terrain@,
                    old(self).screen_size,
                    x,
                    y,
                ) == TerrainTile::Player),
            terrain_at(
                terrain@,
                old(self).screen_size,
                final(self).spec_player_coord().x as int,
                final(self).spec_player_coord().y as int,
            ) == TerrainTile::Player,
    {
        let ghost s = old(self).screen_size;
        let ghost (px, py): (int, int) = choose|x: int, y: int|
            {
                &&& in_grid(s, x, y)
                &&& (#[trigger] terrain_at(terrain@, s, x, y)) == TerrainTile::Player
                &&& (forall|x2: int, y2: int|
                    in_grid(s, x2, y2) && (#[trigger] terrain_at(terrain@, s, x2, y2))
                        == TerrainTile::Player ==> x2 == x && y2 == y)
            };
        let width = self.screen_size.width;
        let height = self.screen_size.height;
        let mut y: u32 = 0;
        while y < height
            invariant
                self.screen_size == old(self).screen_size,
                self.player_entity == old(self).player_entity,
                self.player_entity.id == 0,
                width == s.width,
                height == s.height,
                terrain@.len() == s.area(),
                y <= height,
                self.pop_inv(terrain@, px, py, 0, y as int),
            decreases height - y,
        {
            let mut x: u32 = 0;
            while x < width
                invariant
                    self.screen_size == old(self).screen_size,
                    self.player_entity == old(self).player_entity,
                    self.player_entity.id == 0,
                    width == s.width,
                    height == s.height,
                    terrain@.len() == s.area(),
                    x <= width,
                    y < height,
                    self.pop_inv(terrain@, px, py, x as int, y as int),
                decreases width - x,
            {
                let coord = Coord { x: x as i32, y: y as i32 };
                let i = flat_index(self.screen_size, x, y);
                let tt = terrain[i];
                let ghost g0 = *self;
                let ghost n0 = self.entity_allocator.next_id as int;
                proof {
                    crate::geometry::lemma_flat_index_bound(
                        x as int,
                        y as int,
                        s.width as int,
                        s.height as int,
                    );
                    assert(tt == terrain_at(terrain@, s, x as int, y as int));
                    // the cell is untouched: its three layers are free
                    assert(!row_major_done(x as int, y as int, x as int, y as int));
                    assert(g0.spatial_table.entity_at(
                        Layer::Floor,
                        x as int,
                        y as int,
                    ) is None);
                    if tt == TerrainTile::Player {
                        assert(x as int == px && y as int == py);
                        assert(g0.spatial_table.loc_of(g0.player_entity) is None);
                        assert(g0.entity_allocator.has_allocated(g0.player_entity));
                    }
                }
                self.spawn_cell(coord, tt);
                proof {
                    self.lemma_cell_step(g0, terrain@, px, py, x as int, y as int, tt);
                }
                x = x + 1;
            }
            proof {
                self.lemma_row_step(terrain@, px, py, y as int);
            }
            y = y + 1;
        }
        proof {
            assert(self.pop_inv(terrain@, px, py, 0, s.height as int));
            self.lemma_populated(terrain@, px, py);
        }
    }

    /// One population step: processing the cell `(x, y)` (via `spawn_cell`,
    /// whose net effect the preconditions restate) advances the cursor of
    /// [`Self::pop_inv`] by one cell.
    proof fn lemma_cell_step(
        self,
        g0: GameState,
        t: Seq<TerrainTile>,
        px: int,
        py: int,
        x: int,
        y: int,
        tt: TerrainTile,
    )
        requires
            g0.pop_inv(t, px, py, x, y),
            0 <= x < g0.screen_size.width,
            0 <= y < g0.screen_size.height,
            tt == terrain_at(t, g0.screen_size, x, y),
            self.screen_size == g0.screen_size,
            self.player_entity == g0.player_entity,
            self.spatial_table.wf(),
            self.spatial_table.spec_size() == g0.screen_size,
            self.entity_allocator.next_id == g0.entity_allocator.next_id + (
            if tt == TerrainTile::Wall {
                2int
            } else {
                1int
            }),
            forall|e: Entity|
                (#[trigger] self.spatial_table.loc_of(e)) is Some
                    ==> self.entity_allocator.has_allocated(e),
            forall|e: Entity|
                (#[trigger] self.components.tile_of(e)) is Some
                    ==> self.entity_allocator.has_allocated(e),
            forall|l: Layer, x2: int, y2: int| #[trigger]
                self.spatial_table.entity_at(l, x2, y2) == (if l == Layer::Floor && x2 == x && y2
                    == y {
                    Some(Entity { id: g0.entity_allocator.next_id })
                } else if tt == TerrainTile::Player && l == Layer::Character && x2 == x && y2
                    == y {
                    Some(g0.player_entity)
                } else if tt == TerrainTile::Wall && l == Layer::Feature && x2 == x && y2 == y {
                    Some(Entity { id: (g0.entity_allocator.next_id + 1) as usize })
                } else {
                    g0.spatial_table.entity_at(l, x2, y2)
                }),
            self.spatial_table.loc_of(Entity { id: g0.entity_allocator.next_id }) == Some(
                Location {
                    coord: Coord { x: x as i32, y: y as i32 },
                    layer: Layer::Floor,
                },
            ),
            tt == TerrainTile::Player ==> self.spatial_table.loc_of(g0.player_entity) == Some(
                Location {
                    coord: Coord { x: x as i32, y: y as i32 },
                    layer: Layer::Character,
                },
            ),
            tt == TerrainTile::Wall ==> self.spatial_table.loc_of(
                Entity { id: (g0.entity_allocator.next_id + 1) as usize },
            ) == Some(
                Location {
                    coord: Coord { x: x as i32, y: y as i32 },
                    layer: Layer::Feature,
                },
            ),
            forall|e2: Entity|
                e2.id != g0.entity_allocator.next_id && !(tt == TerrainTile::Player && e2
                    == g0.player_entity) && !(tt == TerrainTile::Wall && e2.id
                    == g0.entity_allocator.next_id + 1) ==> #[trigger] self.spatial_table.loc_of(
                    e2,
                ) == g0.spatial_table.loc_of(e2),
            self.components.tile_of(Entity { id: g0.entity_allocator.next_id }) == Some(
                Tile::Floor,
            ),
            tt == TerrainTile::Player ==> self.components.tile_of(g0.player_entity) == Some(
                Tile::Player,
            ),
            tt == TerrainTile::Wall ==> self.components.tile_of(
                Entity { id: (g0.entity_allocator.next_id + 1) as usize },
            ) == Some(Tile::Wall),
            forall|e2: Entity|
                e2.id != g0.entity_allocator.next_id && !(tt == TerrainTile::Player && e2
                    == g0.player_entity) && !(tt == TerrainTile::Wall && e2.id
                    == g0.entity_allocator.next_id + 1) ==> #[trigger] self.components.tile_of(e2)
                    == g0.components.tile_of(e2),
        ensures
            self.pop_inv(t, px, py, x + 1, y),
    {
        let s = g0.screen_size;
        let n0 = g0.entity_allocator.next_id as int;
        let fe = Entity { id: n0 as usize };
        let we = Entity { id: (n0 + 1) as usize };
        let player = g0.player_entity;
        assert(player.id < n0);
        // `tt` is the Player tile exactly at the unique Player cell
        if tt == TerrainTile::Player {
            assert(x == px && y == py);
            assert(!row_major_done(px, py, x, y));
        }
        if x == px && y == py {
            assert(tt == TerrainTile::Player);
        }
        // budget
        assert(self.entity_allocator.next_id <= 1 + 2 * (y * s.width + (x + 1)));
        // pairing and player-tile uniqueness
        assert forall|e: Entity|
            #![trigger self.components.tile_of(e)]
            #![trigger self.spatial_table.loc_of(e)]
            (self.components.tile_of(e) is Some <==> self.spatial_table.loc_of(e) is Some) by {
            if e == fe {
            } else if tt == TerrainTile::Player && e == player {
            } else if tt == TerrainTile::Wall && e == we {
            } else {
                assert(self.components.tile_of(e) == g0.components.tile_of(e));
                assert(self.spatial_table.loc_of(e) == g0.spatial_table.loc_of(e));
            }
        }
        assert forall|e: Entity|
            (#[trigger] self.components.tile_of(e)) == Some(Tile::Player) implies e
            == self.player_entity by {
            if e == fe {
            } else if tt == TerrainTile::Player && e == player {
            } else if tt == TerrainTile::Wall && e == we {
            } else {
                assert(self.components.tile_of(e) == g0.components.tile_of(e));
            }
        }
        // floor layer: processed cells are floored, untouched cells are free
        assert forall|x2: int, y2: int|
            in_grid(s, x2, y2) && row_major_done(x2, y2, x + 1, y) implies (
        #[trigger] self.spatial_table.entity_at(Layer::Floor, x2, y2)) is Some
            && self.components.tile_of(self.spatial_table.entity_at(Layer::Floor, x2, y2)->Some_0)
            == Some(Tile::Floor) by {
            if x2 == x && y2 == y {
                assert(self.spatial_table.entity_at(Layer::Floor, x2, y2) == Some(fe));
            } else {
                assert(row_major_done(x2, y2, x, y));
                assert(self.spatial_table.entity_at(Layer::Floor, x2, y2)
                    == g0.spatial_table.entity_at(Layer::Floor, x2, y2));
                let ef = g0.spatial_table.entity_at(Layer::Floor, x2, y2)->Some_0;
                crate::spatial::lemma_occupant_is_placed(g0.spatial_table, Layer::Floor, x2, y2);
                assert(g0.entity_allocator.has_allocated(ef));
                if tt == TerrainTile::Player {
                    assert(g0.components.tile_of(player) is None);
                }
                assert(self.components.tile_of(ef) == g0.components.tile_of(ef));
            }
        }
        assert forall|x2: int, y2: int|
            in_grid(s, x2, y2) && !row_major_done(x2, y2, x + 1, y) implies (
        #[trigger] self.spatial_table.entity_at(Layer::Floor, x2, y2)) is None by {
            assert(!row_major_done(x2, y2, x, y));
            assert(self.spatial_table.entity_at(Layer::Floor, x2, y2)
                == g0.spatial_table.entity_at(Layer::Floor, x2, y2));
        }
        // feature layer
        assert forall|x2: int, y2: int| in_grid(s, x2, y2) implies (((
        #[trigger] self.spatial_table.entity_at(Layer::Feature, x2, y2)) is Some) <==> (
        row_major_done(x2, y2, x + 1, y) && terrain_at(t, s, x2, y2) == TerrainTile::Wall)) by {
            if x2 == x && y2 == y {
                if tt == TerrainTile::Wall {
                    assert(self.spatial_table.entity_at(Layer::Feature, x2, y2) == Some(we));
                } else {
                    assert(self.spatial_table.entity_at(Layer::Feature, x2, y2)
                        == g0.spatial_table.entity_at(Layer::Feature, x2, y2));
                    assert(!row_major_done(x2, y2, x, y));
                }
            } else {
                assert(self.spatial_table.entity_at(Layer::Feature, x2, y2)
                    == g0.spatial_table.entity_at(Layer::Feature, x2, y2));
                assert(row_major_done(x2, y2, x + 1, y) == row_major_done(x2, y2, x, y));
            }
        }
        assert forall|x2: int, y2: int|
            in_grid(s, x2, y2) && (#[trigger] self.spatial_table.entity_at(
                Layer::Feature,
                x2,
                y2,
            )) is Some implies self.components.tile_of(
            self.spatial_table.entity_at(Layer::Feature, x2, y2)->Some_0,
        ) == Some(Tile::Wall) by {
            if x2 == x && y2 == y {
                assert(tt == TerrainTile::Wall);
                assert(self.spatial_table.entity_at(Layer::Feature, x2, y2) == Some(we));
            } else {
                assert(self.spatial_table.entity_at(Layer::Feature, x2, y2)
                    == g0.spatial_table.entity_at(Layer::Feature, x2, y2));
                let ew = g0.spatial_table.entity_at(Layer::Feature, x2, y2)->Some_0;
                crate::spatial::lemma_occupant_is_placed(g0.spatial_table, Layer::Feature, x2, y2);
                assert(g0.entity_allocator.has_allocated(ew));
                if tt == TerrainTile::Player {
                    assert(g0.components.tile_of(player) is None);
                }
                assert(self.components.tile_of(ew) == g0.components.tile_of(ew));
            }
        }
        // character layer
        assert forall|x2: int, y2: int| in_grid(s, x2, y2) implies (((
        #[trigger] self.spatial_table.entity_at(Layer::Character, x2, y2)) is Some) <==> (
        row_major_done(x2, y2, x + 1, y) && x2 == px && y2 == py)) by {
            if x2 == x && y2 == y {
                if tt == TerrainTile::Player {
                    assert(self.spatial_table.entity_at(Layer::Character, x2, y2) == Some(player));
                } else {
                    assert(self.spatial_table.entity_at(Layer::Character, x2, y2)
                        == g0.spatial_table.entity_at(Layer::Character, x2, y2));
                    assert(!row_major_done(x2, y2, x, y));
                    assert(!(x2 == px && y2 == py));
                }
            } else {
                assert(self.spatial_table.entity_at(Layer::Character, x2, y2)
                    == g0.spatial_table.entity_at(Layer::Character, x2, y2));
                assert(row_major_done(x2, y2, x + 1, y) == row_major_done(x2, y2, x, y));
            }
        }
        assert forall|x2: int, y2: int|
            in_grid(s, x2, y2) && (#[trigger] self.spatial_table.entity_at(
                Layer::Character,
                x2,
                y2,
            )) is Some implies self.spatial_table.entity_at(Layer::Character, x2, y2) == Some(
            self.player_entity,
        ) by {
            if x2 == x && y2 == y {
                assert(tt == TerrainTile::Player);
            } else {
                assert(self.spatial_table.entity_at(Layer::Character, x2, y2)
                    == g0.spatial_table.entity_at(Layer::Character, x2, y2));
            }
        }
        // the player's own location and classification
        if row_major_done(px, py, x + 1, y) {
            if px == x && py == y {
                assert(tt == TerrainTile::Player);
            } else {
                assert(row_major_done(px, py, x, y));
                assert(!(tt == TerrainTile::Player));
                assert(self.spatial_table.loc_of(player) == g0.spatial_table.loc_of(player));
                assert(self.components.tile_of(player) == g0.components.tile_of(player));
            }
        } else {
            assert(!row_major_done(px, py, x, y));
            assert(!(px == x && py == y));
            assert(!(tt == TerrainTile::Player));
            assert(self.spatial_table.loc_of(player) == g0.spatial_table.loc_of(player));
            assert(self.components.tile_of(player) == g0.components.tile_of(player));
        }
    }

    /// At the end of a row the population cursor `(width, y)` describes the
    /// same set of processed cells as `(0, y + 1)`.
    proof fn lemma_row_step(self, t: Seq<TerrainTile>, px: int, py: int, y: int)
        requires
            self.pop_inv(t, px, py, self.screen_size.width as int, y),
            0 <= y < self.screen_size.height,
        ensures
            self.pop_inv(t, px, py, 0, y + 1),
    {
        let s = self.screen_size;
        let w = s.width as int;
        assert forall|x2: int, y2: int| in_grid(s, x2, y2) implies (#[trigger] row_major_done(
            x2,
            y2,
            w,
            y,
        )) == row_major_done(x2, y2, 0, y + 1) by {}
        assert((y + 1) * w == y * w + w) by (nonlinear_arith);
        assert(self.entity_allocator.next_id <= 1 + 2 * ((y + 1) * w + 0));
        assert forall|x2: int, y2: int|
            in_grid(s, x2, y2) && row_major_done(x2, y2, 0, y + 1) implies (
        #[trigger] self.spatial_table.entity_at(Layer::Floor, x2, y2)) is Some
            && self.components.tile_of(self.spatial_table.entity_at(Layer::Floor, x2, y2)->Some_0)
            == Some(Tile::Floor) by {
            assert(row_major_done(x2, y2, w, y));
        }
        assert forall|x2: int, y2: int|
            in_grid(s, x2, y2) && !row_major_done(x2, y2, 0, y + 1) implies (
        #[trigger] self.spatial_table.entity_at(Layer::Floor, x2, y2)) is None by {
            assert(!row_major_done(x2, y2, w, y));
        }
        assert forall|x2: int, y2: int| in_grid(s, x2, y2) implies (((
        #[trigger] self.spatial_table.entity_at(Layer::Feature, x2, y2)) is Some) <==> (
        row_major_done(x2, y2, 0, y + 1) && terrain_at(t, s, x2, y2) == TerrainTile::Wall)) by {
            assert(row_major_done(x2, y2, w, y) == row_major_done(x2, y2, 0, y + 1));
        }
        assert forall|x2: int, y2: int| in_grid(s, x2, y2) implies (((
        #[trigger] self.spatial_table.entity_at(Layer::Character, x2, y2)) is Some) <==> (
        row_major_done(x2, y2, 0, y + 1) && x2 == px && y2 == py)) by {
            assert(row_major_done(x2, y2, w, y) == row_major_done(x2, y2, 0, y + 1));
        }
        assert(row_major_done(px, py, w, y) == row_major_done(px, py, 0, y + 1));
    }

    /// When the cursor has passed the whole grid, the population invariant
    /// yields the game-state invariant and the terrain correspondence.
    proof fn lemma_populated(self, t: Seq<TerrainTile>, px: int, py: int)
        requires
            self.pop_inv(t, px, py, 0, self.screen_size.height as int),
            2 * self.screen_size.area() + 1 <= usize::MAX,
        ensures
            self.inv(),
            forall|x: int, y: int|
                in_grid(self.screen_size, x, y) ==> (((#[trigger] self.spatial_table.entity_at(
                    Layer::Feature,
                    x,
                    y,
                )) is Some) <==> terrain_at(t, self.screen_size, x, y) == TerrainTile::Wall),
            forall|x: int, y: int|
                in_grid(self.screen_size, x, y) ==> (((#[trigger] self.spatial_table.entity_at(
                    Layer::Character,
                    x,
                    y,
                )) is Some) <==> terrain_at(t, self.screen_size, x, y) == TerrainTile::Player),
            terrain_at(
                t,
                self.screen_size,
                self.spec_player_coord().x as int,
                self.spec_player_coord().y as int,
            ) == TerrainTile::Player,
    {
        let s = self.screen_size;
        let h = s.height as int;
        assert forall|x2: int, y2: int| in_grid(s, x2, y2) implies #[trigger] row_major_done(
            x2,
            y2,
            0,
            h,
        ) by {}
        assert(row_major_done(px, py, 0, h));
        assert(self.spatial_table.loc_of(self.player_entity) == Some(
            Location { coord: Coord { x: px as i32, y: py as i32 }, layer: Layer::Character },
        ));
        assert(self.spec_player_coord() == Coord { x: px as i32, y: py as i32 });
        assert(self.spec_size().area() <= usize::MAX);
        assert forall|x: int, y: int| in_grid(self.spec_size(), x, y) implies (
        #[trigger] self.spatial().entity_at(Layer::Floor, x, y)) is Some && self.tiles().tile_of(
            self.spatial().entity_at(Layer::Floor, x, y)->Some_0,
        ) == Some(Tile::Floor) by {
            assert(row_major_done(x, y, 0, h));
            assert(self.spatial_table.entity_at(Layer::Floor, x, y) is Some);
        }
        assert forall|x: int, y: int| in_grid(s, x, y) implies (((
        #[trigger] self.spatial_table.entity_at(Layer::Feature, x, y)) is Some) <==> terrain_at(
            t,
            s,
            x,
            y,
        ) == TerrainTile::Wall) by {
            assert(row_major_done(x, y, 0, h));
        }
        assert forall|x: int, y: int| in_grid(s, x, y) implies (((
        #[trigger] self.spatial_table.entity_at(Layer::Character, x, y)) is Some) <==> terrain_at(
            t,
            s,
            x,
            y,
        ) == TerrainTile::Player) by {
            assert(row_major_done(x, y, 0, h));
            if x == px && y == py {
            } else {
                assert(!(terrain_at(t, s, x, y) == TerrainTile::Player));
            }
        }
    }

    /// Builds a fully populated game state over a grid of the given size
    /// from the terrain the external generator produced. The terrain must
    /// cover the grid and name exactly one Player cell.
    pub fn new(screen_size: Size, terrain: &Vec<TerrainTile>) -> (g: GameState)
        requires
            screen_size.wf(),
            2 * screen_size.area() + 1 <= usize::MAX,
            terrain@.len() == screen_size.area(),
            unique_player_cell(terrain@, screen_size),
        ensures
            g.inv(),
            g.spec_size() == screen_size,
            forall|x: int, y: int|
                in_grid(screen_size, x, y) ==> (((#[trigger] g.spatial().entity_at(
                    Layer::Feature,
                    x,
                    y,
                )) is Some) <==> terrain_at(terrain@, screen_size, x, y) == TerrainTile::Wall),
            forall|x: int, y: int|
                in_grid(screen_size, x, y) ==> (((#[trigger] g.spatial().entity_at(
                    Layer::Character,
                    x,
                    y,
                )) is Some) <==> terrain_at(terrain@, screen_size, x, y) == TerrainTile::Player),
            terrain_at(
                terrain@,
                screen_size,
                g.spec_player_coord().x as int,
                g.spec_player_coord().y as int,
            ) == TerrainTile::Player,
    {
        let mut entity_allocator = EntityAllocator::default();
        let components = TileTable::new();
        let spatial_table = SpatialTable::new(screen_size);
        let player_entity = entity_allocator.allocate();
        let mut game_state = GameState {
            screen_size,
            entity_allocator,
            components,
            spatial_table,
            player_entity,
        };
        game_state.populate(terrain);
        game_state
    }

    /// Attempts to move the player one step in `direction`. A move whose
    /// target lies off the grid, or whose target cell has an occupied
    /// Character or Feature layer, is silently rejected and the state is
    /// left unchanged; otherwise the player is relocated to the target and
    /// nothing else changes.
    pub fn maybe_move_player(&mut self, direction: CardinalDirection)
        requires
            old(self).inv(),
        ensures
            final(self).inv(),
            final(self).spec_player() == old(self).spec_player(),
            final(self).spec_size() == old(self).spec_size(),
            final(self).tiles() == old(self).tiles(),
            final(self).allocator() == old(self).allocator(),
            old(self).move_blocked(direction) ==> *final(self) == *old(self),
            !old(self).move_blocked(direction) ==> {
                &&& final(self).spatial().loc_of(old(self).spec_player()) == Some(
                    Location {
                        coord: Coord {
                            x: old(self).move_target_x(direction) as i32,
                            y: old(self).move_target_y(direction) as i32,
                        },
                        layer: Layer::Character,
                    },
                )
                &&& (forall|e: Entity|
                    e != old(self).spec_player() ==> #[trigger] final(self).spatial().loc_of(e)
                        == old(self).spatial().loc_of(e))
                &&& (forall|l: Layer, x: int, y: int| #[trigger]
                    final(self).spatial().entity_at(l, x, y) == (if l == Layer::Character && x
                        == old(self).move_target_x(direction) && y == old(self).move_target_y(
                        direction,
                    ) {
                        Some(old(self).spec_player())
                    } else if l == Layer::Character && x == old(self).spec_player_coord().x && y
                        == old(self).spec_player_coord().y {
                        None::<Entity>
                    } else {
                        old(self).spatial().entity_at(l, x, y)
                    }))
            },
            // the player's coordinate is unchanged or exactly one step away,
            // and always stays on the grid
            final(self).spec_player_coord() == old(self).spec_player_coord() || (final(
                self).spec_player_coord().x == old(self).move_target_x(direction) && final(
                self).spec_player_coord().y == old(self).move_target_y(direction)),
            final(self).spec_player_coord().in_bounds(old(self).spec_size()),
    {
        let ghost o = *old(self);
        let player = self.player_entity;
        let pc = self.spatial_table.coord_of(player);
        let player_coord = match pc {
            Some(c) => c,
            None => {
                proof {
                    assert(false);
                }
                Coord { x: 0, y: 0 }
            },
        };
        let offset = direction.coord();
        proof {
            assert(player_coord == o.spec_player_coord());
            assert(player_coord.in_bounds(o.screen_size));
        }
        let new_x = player_coord.x + offset.x;
        let new_y = player_coord.y + offset.y;
        let new_coord = Coord { x: new_x, y: new_y };
        proof {
            assert(new_coord.x as int == o.move_target_x(direction));
            assert(new_coord.y as int == o.move_target_y(direction));
        }
        if new_coord.is_valid(self.screen_size) {
            let dest = self.spatial_table.layers_at(new_coord);
            if dest.character.is_none() && dest.feature.is_none() {
                proof {
                    assert(!o.move_blocked(direction));
                    // the player occupies exactly its recorded Character cell
                    assert(o.spatial_table.loc_of(player) == Some(
                        Location { coord: player_coord, layer: Layer::Character },
                    ));
                    if o.spatial_table.loc_of(player) is Some {
                        assert(o.allocator().has_allocated(player));
                    }
                }
                let res = self.spatial_table.update_coord(player, new_coord);
                match res {
                    Ok(_) => {},
                    Err(_) => {
                        proof {
                            assert(false);
                        }
                    },
                }
                proof {
                    self.lemma_moved(o, direction, player_coord, new_coord);
                }
            } else {
                proof {
                    assert(o.move_blocked(direction));
                }
            }
        } else {
            proof {
                assert(!in_grid(
                    o.screen_size,
                    o.move_target_x(direction),
                    o.move_target_y(direction),
                ));
                assert(o.move_blocked(direction));
            }
        }
    }

    /// Re-establishes the invariant and the relocation shape after a
    /// successful coordinate update of the player.
    proof fn lemma_moved(
        self,
        o: GameState,
        direction: CardinalDirection,
        cur: Coord,
        target: Coord,
    )
        requires
            o.inv(),
            cur == o.spec_player_coord(),
            target.x as int == o.move_target_x(direction),
            target.y as int == o.move_target_y(direction),
            !o.move_blocked(direction),
            self.screen_size == o.screen_size,
            self.player_entity == o.player_entity,
            self.components == o.components,
            self.entity_allocator == o.entity_allocator,
            self.spatial_table.wf(),
            self.spatial_table.spec_size() == o.screen_size,
            self.spatial_table.loc_of(o.player_entity) == Some(
                Location { coord: target, layer: Layer::Character },
            ),
            forall|e2: Entity|
                e2 != o.player_entity ==> #[trigger] self.spatial_table.loc_of(e2)
                    == o.spatial_table.loc_of(e2),
            forall|l: Layer, x: int, y: int| #[trigger]
                self.spatial_table.entity_at(l, x, y) == (if l == Layer::Character && x == target.x
                    && y == target.y {
                    Some(o.player_entity)
                } else if o.spatial_table.entity_at(l, x, y) == Some(o.player_entity) {
                    None::<Entity>
                } else {
                    o.spatial_table.entity_at(l, x, y)
                }),
        ensures
            self.inv(),
            self.spatial().loc_of(o.spec_player()) == Some(
                Location {
                    coord: Coord {
                        x: o.move_target_x(direction) as i32,
                        y: o.move_target_y(direction) as i32,
                    },
                    layer: Layer::Character,
                },
            ),
            forall|e: Entity|
                e != o.spec_player() ==> #[trigger] self.spatial().loc_of(e) == o.spatial().loc_of(
                    e,
                ),
            forall|l: Layer, x: int, y: int| #[trigger]
                self.spatial().entity_at(l, x, y) == (if l == Layer::Character && x
                    == o.move_target_x(direction) && y == o.move_target_y(direction) {
                    Some(o.spec_player())
                } else if l == Layer::Character && x == o.spec_player_coord().x && y
                    == o.spec_player_coord().y {
                    None::<Entity>
                } else {
                    o.spatial().entity_at(l, x, y)
                }),
            self.spec_player_coord().x == o.move_target_x(direction),
            self.spec_player_coord().y == o.move_target_y(direction),
            self.spec_player_coord().in_bounds(o.spec_size()),
    {
        let player = o.player_entity;
        let s = o.screen_size;
        // the cells reporting the player in `o` are exactly its recorded one
        assert forall|l: Layer, x: int, y: int| #[trigger]
            o.spatial_table.entity_at(l, x, y) == Some(player) implies l == Layer::Character && x
            == cur.x && y == cur.y by {
            crate::spatial::lemma_occupant_is_placed(o.spatial_table, l, x, y);
        }
        assert(o.spatial_table.loc_of(player) == Some(
            Location { coord: cur, layer: Layer::Character },
        ));
        crate::spatial::lemma_reverse_lookup_consistency(
            o.spatial_table,
            player,
            cur,
            Layer::Character,
        );
        assert(o.spatial_table.entity_at(Layer::Character, cur.x as int, cur.y as int) == Some(
            player,
        ));
        // the per-cell shape in the form the public contract states
        assert forall|l: Layer, x: int, y: int| #[trigger]
            self.spatial_table.entity_at(l, x, y) == (if l == Layer::Character && x == target.x
                && y == target.y {
                Some(player)
            } else if l == Layer::Character && x == cur.x && y == cur.y {
                None::<Entity>
            } else {
                o.spatial_table.entity_at(l, x, y)
            }) by {
            if l == Layer::Character && x == cur.x && y == cur.y && !(x == target.x && y
                == target.y) {
                assert(o.spatial_table.entity_at(l, x, y) == Some(player));
            }
        }
        // invariant: allocation, pairing and the player's placement
        assert forall|e: Entity| (#[trigger] self.spatial_table.loc_of(e)) is Some implies self
            .entity_allocator.has_allocated(e) by {
            if e != player {
                assert(self.spatial_table.loc_of(e) == o.spatial_table.loc_of(e));
            }
        }
        assert forall|e: Entity|
            #![trigger self.components.tile_of(e)]
            #![trigger self.spatial_table.loc_of(e)]
            (self.components.tile_of(e) is Some <==> self.spatial_table.loc_of(e) is Some) by {
            if e != player {
                assert(self.spatial_table.loc_of(e) == o.spatial_table.loc_of(e));
            }
        }
        // the Floor and Feature layers are untouched
        assert forall|x: int, y: int|
            in_grid(s, x, y) implies (#[trigger] self.spatial_table.entity_at(
            Layer::Floor,
            x,
            y,
        )) == o.spatial_table.entity_at(Layer::Floor, x, y) && self.spatial_table.entity_at(
            Layer::Feature,
            x,
            y,
        ) == o.spatial_table.entity_at(Layer::Feature, x, y) by {}
        assert forall|x: int, y: int|
            in_grid(self.spec_size(), x, y) implies (#[trigger] self.spatial().entity_at(
            Layer::Floor,
            x,
            y,
        )) is Some && self.tiles().tile_of(self.spatial().entity_at(Layer::Floor, x, y)->Some_0)
            == Some(Tile::Floor) by {
            assert(self.spatial_table.entity_at(Layer::Floor, x, y) == o.spatial_table.entity_at(
                Layer::Floor,
                x,
                y,
            ));
        }
        assert forall|x: int, y: int|
            in_grid(self.spec_size(), x, y) && (#[trigger] self.spatial().entity_at(
                Layer::Feature,
                x,
                y,
            )) is Some implies self.tiles().tile_of(
            self.spatial().entity_at(Layer::Feature, x, y)->Some_0,
        ) == Some(Tile::Wall) by {
            assert(self.spatial_table.entity_at(Layer::Feature, x, y) == o.spatial_table.entity_at(
                Layer::Feature,
                x,
                y,
            ));
        }
        assert forall|x: int, y: int|
            in_grid(self.spec_size(), x, y) && (#[trigger] self.spatial().entity_at(
                Layer::Character,
                x,
                y,
            )) is Some implies self.spatial().entity_at(Layer::Character, x, y) == Some(
            self.spec_player(),
        ) by {
            if !(x == target.x && y == target.y) {
                assert(self.spatial_table.entity_at(Layer::Character, x, y)
                    == o.spatial_table.entity_at(Layer::Character, x, y) || self.spatial_table
                    .entity_at(Layer::Character, x, y) is None);
            }
        }
        assert(self.inv());
    }

    /// The render projection: the full join of the component store and the
    /// spatial index — every classified, placed entity appears once, with
    /// its classification and location; entries carry pairwise distinct
    /// locations. A pure read; entities without a location are skipped.
    #[verifier::loop_isolation(false)]
    #[verifier::rlimit(50)]
    pub fn entities_to_render(&self) -> (r: Vec<EntityToRender>)
        requires
            self.inv(),
        ensures
            forall|i: int|
                0 <= i < r@.len() ==> exists|e: Entity|
                    self.tiles().tile_of(e) == Some((#[trigger] r@[i]).tile) && (
                    #[trigger] self.spatial().loc_of(e)) == Some(r@[i].location),
            forall|e: Entity|
                #![trigger self.tiles().tile_of(e)]
                (self.tiles().tile_of(e) is Some && self.spatial().loc_of(e) is Some) ==> exists|
                    i: int,
                |
                    0 <= i < r@.len() && #[trigger] r@[i] == (EntityToRender {
                        tile: self.tiles().tile_of(e)->Some_0,
                        location: self.spatial().loc_of(e)->Some_0,
                    }),
            forall|i: int, j: int|
                0 <= i < j < r@.len() ==> r@[i].location != r@[j].location,
    {
        let entries = self.components.entries();
        let mut r: Vec<EntityToRender> = Vec::new();
        let ghost mut ents: Seq<Entity> = Seq::empty();
        let mut idx: usize = 0;
        while idx < entries.len()
            invariant
                idx <= entries@.len(),
                ents.len() == r@.len(),
                forall|j: int|
                    0 <= j < r@.len() ==> self.components.tile_of(#[trigger] ents[j]) == Some(
                        r@[j].tile,
                    ) && self.spatial_table.loc_of(ents[j]) == Some(r@[j].location),
                forall|j1: int, j2: int| 0 <= j1 < j2 < ents.len() ==> ents[j1].id < ents[j2].id,
                forall|j: int|
                    0 <= j < ents.len() ==> exists|k: int|
                        0 <= k < idx && #[trigger] ents[j] == entries@[k].0,
                forall|k: int|
                    0 <= k < idx && (self.spatial_table.loc_of(
                        (#[trigger] entries@[k]).0,
                    ) is Some) ==> exists|j: int| 0 <= j < ents.len() && ents[j] == entries@[k].0,
            decreases entries@.len() - idx,
        {
            let (entity, tile) = entries[idx];
            let loc = self.spatial_table.location_of(entity);
            if let Some(location) = loc {
                let ghost prev_ents = ents;
                r.push(EntityToRender { tile, location });
                proof {
                    ents = ents.push(entity);
                    assert(ents[ents.len() - 1] == entity);
                    assert forall|j1: int, j2: int|
                        0 <= j1 < j2 < ents.len() implies ents[j1].id < ents[j2].id by {
                        if j2 == ents.len() - 1 {
                            let k = choose|k: int| 0 <= k < idx && prev_ents[j1] == entries@[k].0;
                            assert(entries@[k].0.id < entries@[idx as int].0.id);
                        }
                    }
                    assert forall|j: int| 0 <= j < ents.len() implies exists|k: int|
                        0 <= k < idx + 1 && #[trigger] ents[j] == entries@[k].0 by {
                        if j == ents.len() - 1 {
                            assert(ents[j] == entries@[idx as int].0);
                        } else {
                            let k = choose|k: int| 0 <= k < idx && prev_ents[j] == entries@[k].0;
                            assert(ents[j] == entries@[k].0);
                        }
                    }
                    assert forall|k: int|
                        0 <= k < idx + 1 && (self.spatial_table.loc_of(
                            (#[trigger] entries@[k]).0,
                        ) is Some) implies exists|j: int|
                        0 <= j < ents.len() && ents[j] == entries@[k].0 by {
                        if k < idx {
                            let j = choose|j: int|
                                0 <= j < prev_ents.len() && prev_ents[j] == entries@[k].0;
                            assert(ents[j] == entries@[k].0);
                        } else {
                            assert(ents[ents.len() - 1] == entries@[k].0);
                        }
                    }
                }
            }
            idx = idx + 1;
        }
        proof {
            assert forall|e: Entity|
                #![trigger self.tiles().tile_of(e)]
                (self.tiles().tile_of(e) is Some && self.spatial().loc_of(e) is Some) implies
                exists|i: int|
                    0 <= i < r@.len() && #[trigger] r@[i] == (EntityToRender {
                        tile: self.tiles().tile_of(e)->Some_0,
                        location: self.spatial().loc_of(e)->Some_0,
                    }) by {
                let tl = self.components.tile_of(e)->Some_0;
                let k = choose|k: int|
                    0 <= k < entries@.len() && #[trigger] entries@[k] == (e, tl);
                let j = choose|j: int| 0 <= j < ents.len() && ents[j] == entries@[k].0;
                assert(r@[j] == (EntityToRender {
                    tile: self.tiles().tile_of(e)->Some_0,
                    location: self.spatial().loc_of(e)->Some_0,
                }));
            }
            assert forall|i: int, j: int|
                0 <= i < j < r@.len() implies r@[i].location != r@[j].location by {
                if r@[i].location == r@[j].location {
                    crate::spatial::lemma_spatial_exclusivity(
                        self.spatial_table,
                        ents[i],
                        ents[j],
                        r@[i].location.coord,
                        r@[i].location.layer,
                    );
                }
            }
            assert forall|i: int| 0 <= i < r@.len() implies exists|e: Entity|
                self.tiles().tile_of(e) == Some((#[trigger] r@[i]).tile) && (
                #[trigger] self.spatial().loc_of(e)) == Some(r@[i].location) by {
                assert(self.tiles().tile_of(ents[i]) == Some(r@[i].tile) && self.spatial().loc_of(
                    ents[i],
                ) == Some(r@[i].location));
            }
        }
        r
    }

    /// The player's current coordinate.
    pub fn player_coord(&self) -> (c: Coord)
        requires
            self.inv(),
        ensures
            c == self.spec_player_coord(),
    {
        match self.spatial_table.coord_of(self.player_entity) {
            Some(c) => c,
            None => {
                proof {
                    assert(false);
                }
                Coord { x: 0, y: 0 }
            },
        }
    }

    /// The grid size the state was created with.
    pub fn size(&self) -> (s: Size)
        ensures
            s == self.spec_size(),
    {
        self.screen_size
    }
}

} // verus!
