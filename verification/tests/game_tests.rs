use grid_game::{
    CardinalDirection, Coord, EntityToRender, GameState, Layer, Location, Size, TerrainTile, Tile,
};

/// The 3x3 example grid: all Floor except the center Player and four Wall
/// cells at the corners.
fn example_terrain() -> Vec<TerrainTile> {
    vec![
        TerrainTile::Wall,
        TerrainTile::Floor,
        TerrainTile::Wall,
        TerrainTile::Floor,
        TerrainTile::Player,
        TerrainTile::Floor,
        TerrainTile::Wall,
        TerrainTile::Floor,
        TerrainTile::Wall,
    ]
}

fn example_game() -> GameState {
    GameState::new(Size::new(3, 3), &example_terrain())
}

fn count_tiles(entries: &[EntityToRender], tile: Tile) -> usize {
    entries.iter().filter(|e| e.tile == tile).count()
}

#[test]
fn population_counts_for_example_grid() {
    let game = example_game();
    let entries = game.entities_to_render();
    assert_eq!(count_tiles(&entries, Tile::Floor), 9);
    assert_eq!(count_tiles(&entries, Tile::Wall), 4);
    assert_eq!(count_tiles(&entries, Tile::Player), 1);
    assert_eq!(entries.len(), 14);
}

#[test]
fn population_covers_every_cell_with_floor() {
    let game = example_game();
    let entries = game.entities_to_render();
    for y in 0..3 {
        for x in 0..3 {
            let expected = Location { coord: Coord::new(x, y), layer: Layer::Floor };
            assert!(entries
                .iter()
                .any(|e| e.tile == Tile::Floor && e.location == expected));
        }
    }
}

#[test]
fn population_puts_walls_on_the_feature_layer() {
    let game = example_game();
    let entries = game.entities_to_render();
    for (x, y) in [(0, 0), (2, 0), (0, 2), (2, 2)] {
        let expected = Location { coord: Coord::new(x, y), layer: Layer::Feature };
        assert!(entries
            .iter()
            .any(|e| e.tile == Tile::Wall && e.location == expected));
    }
    // and nowhere else
    assert_eq!(count_tiles(&entries, Tile::Wall), 4);
}

#[test]
fn population_places_the_player_on_the_character_layer() {
    let game = example_game();
    assert_eq!(game.player_coord(), Coord::new(1, 1));
    let entries = game.entities_to_render();
    let expected = Location { coord: Coord::new(1, 1), layer: Layer::Character };
    assert!(entries
        .iter()
        .any(|e| e.tile == Tile::Player && e.location == expected));
}

#[test]
fn render_projection_is_restartable() {
    let game = example_game();
    let first = game.entities_to_render();
    let second = game.entities_to_render();
    assert_eq!(first, second);
}

#[test]
fn move_north_into_floor_succeeds() {
    let mut game = example_game();
    game.maybe_move_player(CardinalDirection::North);
    assert_eq!(game.player_coord(), Coord::new(1, 0));
}

#[test]
fn move_into_wall_is_rejected() {
    // a wall directly north of the player
    let terrain = vec![
        TerrainTile::Floor,
        TerrainTile::Wall,
        TerrainTile::Floor,
        TerrainTile::Floor,
        TerrainTile::Player,
        TerrainTile::Floor,
        TerrainTile::Floor,
        TerrainTile::Floor,
        TerrainTile::Floor,
    ];
    let mut game = GameState::new(Size::new(3, 3), &terrain);
    let before = game.entities_to_render();
    game.maybe_move_player(CardinalDirection::North);
    assert_eq!(game.player_coord(), Coord::new(1, 1));
    // the rejection left the state unchanged
    assert_eq!(game.entities_to_render(), before);
}

#[test]
fn move_off_the_grid_edge_is_rejected() {
    let terrain = vec![TerrainTile::Player, TerrainTile::Floor];
    let mut game = GameState::new(Size::new(2, 1), &terrain);
    assert_eq!(game.player_coord(), Coord::new(0, 0));
    game.maybe_move_player(CardinalDirection::West);
    assert_eq!(game.player_coord(), Coord::new(0, 0));
    game.maybe_move_player(CardinalDirection::North);
    assert_eq!(game.player_coord(), Coord::new(0, 0));
    game.maybe_move_player(CardinalDirection::South);
    assert_eq!(game.player_coord(), Coord::new(0, 0));
    // moving east stays on the grid and succeeds
    game.maybe_move_player(CardinalDirection::East);
    assert_eq!(game.player_coord(), Coord::new(1, 0));
}

#[test]
fn moves_change_the_coordinate_by_one_step() {
    let mut game = example_game();
    let start = game.player_coord();
    game.maybe_move_player(CardinalDirection::East);
    let after = game.player_coord();
    assert_eq!(after, Coord::new(start.x + 1, start.y));
    game.maybe_move_player(CardinalDirection::West);
    assert_eq!(game.player_coord(), start);
}

#[test]
fn game_size_is_kept() {
    let game = example_game();
    let size = game.size();
    assert_eq!(size.width, 3);
    assert_eq!(size.height, 3);
}
