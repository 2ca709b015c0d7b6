use digger_core::{
    animate_moveto, move_player, spawn_player, GridPosition, MapSettings, MoveTo, SquareDirection,
    TileData, TileInfo, TilePos, TileTerrain, TileTexture, TileWorld, TilemapSize, WALK_TIME,
};

fn registry() -> TileInfo {
    let mut info = TileInfo::new();
    info.insert(
        "ground".to_owned(),
        TileData { tile_type: TileTerrain::Walkable, tile_texture: TileTexture::Directional(16) },
    );
    info.insert(
        "rock".to_owned(),
        TileData {
            tile_type: TileTerrain::Diggable { level: 1, hardness: 500 },
            tile_texture: TileTexture::Single(40),
        },
    );
    info.insert(
        "wall".to_owned(),
        TileData { tile_type: TileTerrain::Impassable, tile_texture: TileTexture::Single(41) },
    );
    info
}

fn ground_world(info: &TileInfo, width: u32, height: u32) -> TileWorld {
    let size = TilemapSize { x: width, y: height };
    let mut world = TileWorld::empty(size);
    for x in 0..width {
        for y in 0..height {
            let pos = TilePos { x, y };
            let bundle = info.create_bundle("ground", pos, 1, true).unwrap();
            world.set(pos, bundle);
        }
    }
    world
}

#[test]
fn interpolation_passes_the_exact_midpoint_then_commits() {
    // Moving from (5,5) to (6,5) over 0.5 time units with 16-sub-unit cells:
    // at 0.25 the rendered position is the exact midpoint of the two cell
    // centers; at 0.5 the grid position is (6,5) and the move is gone.
    let mut grid_pos = GridPosition(TilePos { x: 5, y: 5 });
    let move_to = MoveTo::new(TilePos { x: 6, y: 5 }, 500);
    let (still_moving, rendered) = animate_moveto(&mut grid_pos, move_to, 250, 16);
    assert_eq!((rendered.x, rendered.y), ((80 + 96) / 2, 80));
    assert_eq!(grid_pos.0, TilePos { x: 5, y: 5 });
    let move_to = still_moving.expect("the move is only half done");
    assert_eq!(move_to.elapsed_time, 250);
    let (still_moving, rendered) = animate_moveto(&mut grid_pos, move_to, 250, 16);
    assert!(still_moving.is_none());
    assert_eq!(grid_pos.0, TilePos { x: 6, y: 5 });
    assert_eq!((rendered.x, rendered.y), (96, 80));
}

#[test]
fn interpolation_is_monotone_along_the_step() {
    let target = TilePos { x: 3, y: 2 };
    let mut previous: u64 = 0;
    for elapsed in [100u64, 200, 300, 400] {
        let mut grid_pos = GridPosition(TilePos { x: 2, y: 2 });
        let move_to = MoveTo { target, elapsed_time: 0, movement_time: 500 };
        let (_, rendered) = animate_moveto(&mut grid_pos, move_to, elapsed, 16);
        assert!(rendered.x > previous);
        assert_eq!(rendered.y, 32);
        previous = rendered.x;
    }
}

#[test]
fn player_spawns_at_the_map_center() {
    let settings = MapSettings { size: (31, 31), tile_size: 16 };
    let (bundle, rendered) = spawn_player(&settings);
    assert_eq!(bundle.position.0, TilePos { x: 15, y: 15 });
    assert_eq!((rendered.x, rendered.y), (240, 240));
}

#[test]
fn walkable_target_starts_a_half_unit_move() {
    let info = registry();
    let mut world = ground_world(&info, 5, 5);
    let player = GridPosition(TilePos { x: 2, y: 2 });
    let moved = move_player(&mut world, &player, false, Some(SquareDirection::North));
    assert_eq!(
        moved,
        Some(MoveTo { target: TilePos { x: 2, y: 3 }, elapsed_time: 0, movement_time: WALK_TIME })
    );
}

#[test]
fn diggable_target_starts_digging_instead_of_moving() {
    let info = registry();
    let mut world = ground_world(&info, 5, 5);
    let rock = TilePos { x: 3, y: 2 };
    let bundle = info.create_bundle("rock", rock, 1, true).unwrap();
    world.set(rock, bundle);
    let player = GridPosition(TilePos { x: 2, y: 2 });
    let moved = move_player(&mut world, &player, false, Some(SquareDirection::East));
    assert!(moved.is_none());
    let dig = world.get_tile(&rock).unwrap().digging.expect("digging must have started");
    assert_eq!(dig.elapsed, 0);
    // hardness 500 is fixed-point 0.5: duration 0.5 * (1 + 0.5) = 0.75.
    assert_eq!(dig.duration, 750);
    // Pressing into the same tile again must not restart the countdown.
    world.update_tile_digging(&info, 300);
    let moved = move_player(&mut world, &player, false, Some(SquareDirection::East));
    assert!(moved.is_none());
    let dig = world.get_tile(&rock).unwrap().digging.unwrap();
    assert_eq!(dig.elapsed, 300);
}

#[test]
fn impassable_target_or_map_edge_rejects_the_move() {
    let info = registry();
    let mut world = ground_world(&info, 5, 5);
    let wall = TilePos { x: 2, y: 1 };
    let bundle = info.create_bundle("wall", wall, 1, true).unwrap();
    world.set(wall, bundle);
    let player = GridPosition(TilePos { x: 2, y: 2 });
    assert!(move_player(&mut world, &player, false, Some(SquareDirection::South)).is_none());
    assert!(world.get_tile(&wall).unwrap().digging.is_none());
    let edge_player = GridPosition(TilePos { x: 0, y: 0 });
    assert!(move_player(&mut world, &edge_player, false, Some(SquareDirection::West)).is_none());
}

#[test]
fn moving_actor_and_missing_intent_are_no_ops() {
    let info = registry();
    let mut world = ground_world(&info, 5, 5);
    let player = GridPosition(TilePos { x: 2, y: 2 });
    assert!(move_player(&mut world, &player, true, Some(SquareDirection::North)).is_none());
    assert!(move_player(&mut world, &player, false, None).is_none());
}
