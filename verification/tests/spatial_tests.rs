use grid_game::{
    AppView, CardinalDirection, Coord, Entity, EntityAllocator, Layer, Location, Size,
    SpatialError, SpatialTable, Tile, TileTable,
};

fn table_2x2() -> SpatialTable {
    SpatialTable::new(Size::new(2, 2))
}

#[test]
fn allocated_entities_are_pairwise_distinct() {
    let mut allocator = EntityAllocator::default();
    let mut seen: Vec<Entity> = Vec::new();
    for _ in 0..100 {
        let fresh = allocator.allocate();
        for prior in &seen {
            assert_ne!(*prior, fresh);
        }
        seen.push(fresh);
    }
}

#[test]
fn occupied_cell_rejects_a_second_entity() {
    let mut allocator = EntityAllocator::default();
    let first = allocator.allocate();
    let second = allocator.allocate();
    let mut table = table_2x2();
    let slot = Location { coord: Coord::new(0, 0), layer: Layer::Floor };
    assert_eq!(table.update(first, slot), Ok(()));
    assert_eq!(table.update(second, slot), Err(SpatialError::Occupied));
    // the same cell on another layer is independent
    let other_layer = Location { coord: Coord::new(0, 0), layer: Layer::Character };
    assert_eq!(table.update(second, other_layer), Ok(()));
    assert_eq!(table.layers_at(Coord::new(0, 0)).floor, Some(first));
    assert_eq!(table.layers_at(Coord::new(0, 0)).character, Some(second));
}

#[test]
fn reverse_lookup_matches_point_queries() {
    let mut allocator = EntityAllocator::default();
    let entity = allocator.allocate();
    let mut table = table_2x2();
    let loc = Location { coord: Coord::new(1, 0), layer: Layer::Feature };
    assert_eq!(table.update(entity, loc), Ok(()));
    assert_eq!(table.location_of(entity), Some(loc));
    assert_eq!(table.coord_of(entity), Some(Coord::new(1, 0)));
    assert_eq!(table.layers_at(Coord::new(1, 0)).feature, Some(entity));
    assert_eq!(table.layers_at(Coord::new(1, 0)).floor, None);
    assert_eq!(table.layers_at(Coord::new(1, 0)).character, None);
}

#[test]
fn relocation_is_atomic() {
    let mut allocator = EntityAllocator::default();
    let entity = allocator.allocate();
    let mut table = table_2x2();
    let from = Location { coord: Coord::new(0, 0), layer: Layer::Character };
    assert_eq!(table.update(entity, from), Ok(()));
    let to = Location { coord: Coord::new(1, 1), layer: Layer::Character };
    assert_eq!(table.update(entity, to), Ok(()));
    // the entity occupies exactly one cell afterwards
    let mut occurrences = 0;
    for x in 0..2 {
        for y in 0..2 {
            let layers = table.layers_at(Coord::new(x, y));
            for occupant in [layers.floor, layers.character, layers.feature] {
                if occupant == Some(entity) {
                    occurrences += 1;
                }
            }
        }
    }
    assert_eq!(occurrences, 1);
    assert_eq!(table.location_of(entity), Some(to));
    assert_eq!(table.layers_at(Coord::new(0, 0)).character, None);
}

#[test]
fn coordinate_update_keeps_the_layer() {
    let mut allocator = EntityAllocator::default();
    let entity = allocator.allocate();
    let mut table = table_2x2();
    let start = Location { coord: Coord::new(0, 1), layer: Layer::Character };
    assert_eq!(table.update(entity, start), Ok(()));
    assert_eq!(table.update_coord(entity, Coord::new(1, 1)), Ok(()));
    assert_eq!(
        table.location_of(entity),
        Some(Location { coord: Coord::new(1, 1), layer: Layer::Character })
    );
}

#[test]
fn coordinate_update_of_an_unplaced_entity_is_rejected() {
    let mut allocator = EntityAllocator::default();
    let entity = allocator.allocate();
    let mut table = table_2x2();
    assert_eq!(
        table.update_coord(entity, Coord::new(0, 0)),
        Err(SpatialError::NotPlaced)
    );
}

#[test]
fn coordinate_update_into_an_occupied_cell_is_rejected() {
    let mut allocator = EntityAllocator::default();
    let first = allocator.allocate();
    let second = allocator.allocate();
    let mut table = table_2x2();
    assert_eq!(
        table.update(first, Location { coord: Coord::new(0, 0), layer: Layer::Character }),
        Ok(())
    );
    assert_eq!(
        table.update(second, Location { coord: Coord::new(1, 0), layer: Layer::Character }),
        Ok(())
    );
    assert_eq!(
        table.update_coord(second, Coord::new(0, 0)),
        Err(SpatialError::Occupied)
    );
    // nothing moved
    assert_eq!(table.coord_of(second), Some(Coord::new(1, 0)));
}

#[test]
fn tile_table_insert_overwrites() {
    let mut allocator = EntityAllocator::default();
    let first = allocator.allocate();
    let second = allocator.allocate();
    let mut tiles = TileTable::new();
    tiles.insert(second, Tile::Wall);
    tiles.insert(first, Tile::Floor);
    tiles.insert(second, Tile::Player);
    let entries = tiles.entries();
    assert_eq!(entries, vec![(first, Tile::Floor), (second, Tile::Player)]);
}

#[test]
fn direction_offsets_are_unit_steps() {
    assert_eq!(CardinalDirection::North.coord(), Coord::new(0, -1));
    assert_eq!(CardinalDirection::East.coord(), Coord::new(1, 0));
    assert_eq!(CardinalDirection::South.coord(), Coord::new(0, 1));
    assert_eq!(CardinalDirection::West.coord(), Coord::new(-1, 0));
}

#[test]
fn movement_keys_map_to_directions() {
    assert_eq!(CardinalDirection::from_key('w'), Some(CardinalDirection::North));
    assert_eq!(CardinalDirection::from_key('a'), Some(CardinalDirection::West));
    assert_eq!(CardinalDirection::from_key('s'), Some(CardinalDirection::South));
    assert_eq!(CardinalDirection::from_key('d'), Some(CardinalDirection::East));
    assert_eq!(CardinalDirection::from_key('q'), None);
    assert_eq!(CardinalDirection::from_key(' '), None);
}

#[test]
fn coordinate_validity_follows_the_grid_bounds() {
    let size = Size::new(2, 3);
    assert!(Coord::new(0, 0).is_valid(size));
    assert!(Coord::new(1, 2).is_valid(size));
    assert!(!Coord::new(2, 0).is_valid(size));
    assert!(!Coord::new(0, 3).is_valid(size));
    assert!(!Coord::new(-1, 0).is_valid(size));
    assert!(!Coord::new(0, -1).is_valid(size));
}

#[test]
fn view_handle_is_constructible() {
    let _view = AppView::new();
}
