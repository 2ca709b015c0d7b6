use digger_core::{
    create_map, position_to_index, MapSettings, TileData, TileInfo, TilePos, TileTerrain,
    TileTexture, TileWorld, TilemapSize,
};

const ICE_BASE: u32 = 0;
const GROUND_BASE: u32 = 16;

fn registry() -> TileInfo {
    let mut info = TileInfo::new();
    info.insert(
        "ice".to_owned(),
        TileData {
            tile_type: TileTerrain::Walkable,
            tile_texture: TileTexture::Directional(ICE_BASE),
        },
    );
    info.insert(
        "ground".to_owned(),
        TileData {
            tile_type: TileTerrain::Walkable,
            tile_texture: TileTexture::Directional(GROUND_BASE),
        },
    );
    info.insert(
        "rock".to_owned(),
        TileData {
            tile_type: TileTerrain::Diggable { level: 1, hardness: 1000 },
            tile_texture: TileTexture::Single(40),
        },
    );
    info
}

/// A world of the given extent with every cell stocked from one definition.
fn uniform_world(info: &TileInfo, width: u32, height: u32, name: &str, visible: bool) -> TileWorld {
    let size = TilemapSize { x: width, y: height };
    let mut world = TileWorld::empty(size);
    for x in 0..width {
        for y in 0..height {
            let pos = TilePos { x, y };
            let bundle = info.create_bundle(name, pos, 7, visible).unwrap();
            world.set(pos, bundle);
        }
    }
    world
}

fn index_of(world: &TileWorld, pos: TilePos) -> usize {
    position_to_index(&pos, &world.size)
}

#[test]
fn registry_lookup() {
    let info = registry();
    let rock = info.get("rock").unwrap();
    assert_eq!(rock.tile_type, TileTerrain::Diggable { level: 1, hardness: 1000 });
    assert_eq!(rock.tile_texture, TileTexture::Single(40));
    assert!(info.get("lava").is_none());
}

#[test]
fn create_bundle_resolves_base_index() {
    let info = registry();
    let b = info
        .create_bundle("ground", TilePos { x: 2, y: 1 }, 9, true)
        .unwrap();
    assert_eq!(b.texture_index, GROUND_BASE);
    assert_eq!(b.position, TilePos { x: 2, y: 1 });
    assert_eq!(b.tilemap_id, 9);
    assert!(b.visible);
    assert_eq!(b.tile_terrain, TileTerrain::Walkable);
    assert!(info.create_bundle("lava", TilePos { x: 0, y: 0 }, 9, true).is_none());
}

#[test]
fn generated_map_has_icy_rim_and_ground_clearing() {
    let info = registry();
    let settings = MapSettings { size: (7, 7), tile_size: 16 };
    let world = create_map(&settings, &info, 3);
    assert_eq!(world.size, TilemapSize { x: 7, y: 7 });
    for x in 0..7u32 {
        for y in 0..7u32 {
            let pos = TilePos { x, y };
            let entity = world.get_tile(&pos).expect("generated map must be fully populated");
            let in_clearing = (2..=4).contains(&x) && (2..=4).contains(&y);
            if in_clearing {
                assert_eq!(entity.bundle.tile_type.0, "ground");
                assert!(entity.bundle.visible);
            } else {
                assert_eq!(entity.bundle.tile_type.0, "ice");
                assert!(!entity.bundle.visible);
            }
            assert!(entity.digging.is_none());
            assert_eq!(entity.bundle.tilemap_id, 3);
        }
    }
}

#[test]
fn replacing_a_cell_retires_the_old_identity() {
    let info = registry();
    let mut world = uniform_world(&info, 5, 5, "ice", false);
    let pos = TilePos { x: 3, y: 3 };
    let old_id = world.get(&pos).unwrap();
    let bundle = info.create_bundle("ground", pos, 7, true).unwrap();
    world.set(pos, bundle);
    let new_id = world.get(&pos).unwrap();
    assert_ne!(new_id, old_id, "a replacement must carry a fresh identity");
    assert_eq!(world.get(&pos).unwrap(), new_id);
    let entity = world.get_tile(&pos).unwrap();
    assert_eq!(entity.bundle.tile_type.0, "ground");
}

#[test]
fn replacement_triggers_recompute_of_cell_and_neighbors() {
    let info = registry();
    let mut world = uniform_world(&info, 7, 7, "ice", false);
    // Settle the initial masks, then drain the queue.
    let changed = world.take_changed();
    world.update_directional_tiles(&changed);
    let center = TilePos { x: 3, y: 3 };
    let west = TilePos { x: 2, y: 3 };
    let bundle = info.create_bundle("ground", center, 7, true).unwrap();
    world.set(center, bundle);
    let changed = world.take_changed();
    assert_eq!(changed, vec![center]);
    world.update_directional_tiles(&changed);
    // The ground cell differs from all four ice neighbors: mask 15, offset 1.
    let i = index_of(&world, center);
    assert_eq!(world.tiles[i].as_ref().unwrap().bundle.texture_index, GROUND_BASE + 1);
    // Its west neighbor now differs only toward the East: mask 2, offset 3.
    let i = index_of(&world, west);
    assert_eq!(world.tiles[i].as_ref().unwrap().bundle.texture_index, ICE_BASE + 3);
    // A cell two steps away was not touched: mask 0, offset 0.
    let i = index_of(&world, TilePos { x: 1, y: 3 });
    assert_eq!(world.tiles[i].as_ref().unwrap().bundle.texture_index, ICE_BASE);
}

#[test]
fn uniform_interior_masks_to_zero_and_lone_tile_to_fifteen() {
    let info = registry();
    let mut world = uniform_world(&info, 3, 3, "ground", true);
    let center = TilePos { x: 1, y: 1 };
    world.update_tile(&center);
    let i = index_of(&world, center);
    // Identical to all four orthogonal neighbors: mask 0, offset 0.
    assert_eq!(world.tiles[i].as_ref().unwrap().bundle.texture_index, GROUND_BASE);
    let bundle = info.create_bundle("ice", center, 7, true).unwrap();
    world.set(center, bundle);
    world.update_tile(&center);
    // Different from all four orthogonal neighbors: mask 15, offset 1.
    let i = index_of(&world, center);
    assert_eq!(world.tiles[i].as_ref().unwrap().bundle.texture_index, ICE_BASE + 1);
}

#[test]
fn digging_completes_at_exactly_its_duration() {
    let info = registry();
    let mut world = uniform_world(&info, 3, 3, "ground", true);
    let pos = TilePos { x: 1, y: 1 };
    let bundle = info.create_bundle("rock", pos, 7, true).unwrap();
    world.set(pos, bundle);
    let _ = world.take_changed();
    // hardness 1000 is fixed-point 1.0, so digging takes 0.5 * (1 + 1.0)
    // = 1.0 time units: 1000 sub-units.
    let digger = digger_core::GridPosition(TilePos { x: 0, y: 1 });
    let moved = digger_core::move_player(
        &mut world,
        &digger,
        false,
        Some(digger_core::SquareDirection::East),
    );
    assert!(moved.is_none(), "digging starts without moving");
    let entity = world.get_tile(&pos).unwrap();
    assert_eq!(entity.digging.map(|d| d.duration), Some(1000));
    world.update_tile_digging(&info, 999);
    let entity = world.get_tile(&pos).unwrap();
    assert!(entity.digging.is_some(), "at 0.999 time units the tile must still be digging");
    assert_eq!(entity.bundle.tile_type.0, "rock");
    world.update_tile_digging(&info, 1);
    let entity = world.get_tile(&pos).unwrap();
    assert!(entity.digging.is_none());
    assert_eq!(entity.bundle.tile_type.0, "ground");
    assert_eq!(entity.bundle.tile_terrain, TileTerrain::Walkable);
    assert!(entity.bundle.visible);
    // The completed cell was queued for recomputation.
    let changed = world.take_changed();
    assert_eq!(changed, vec![pos]);
}

#[test]
fn visibility_reveals_all_eight_neighbors_and_never_reverts() {
    let info = registry();
    let mut world = uniform_world(&info, 5, 5, "ice", false);
    let _ = world.take_changed();
    let center = TilePos { x: 2, y: 2 };
    let bundle = info.create_bundle("ground", center, 7, true).unwrap();
    world.set(center, bundle);
    let changed = world.take_changed();
    world.update_visibility(&changed);
    for x in 1..=3u32 {
        for y in 1..=3u32 {
            let entity = world.get_tile(&TilePos { x, y }).unwrap();
            assert!(entity.bundle.visible, "({}, {}) must be revealed", x, y);
        }
    }
    assert!(!world.get_tile(&TilePos { x: 0, y: 0 }).unwrap().bundle.visible);
    assert!(!world.get_tile(&TilePos { x: 4, y: 2 }).unwrap().bundle.visible);
    // Marking the center invisible again must not revert the neighbors.
    let bundle = info.create_bundle("ground", center, 7, false).unwrap();
    world.set(center, bundle);
    let changed = world.take_changed();
    world.update_visibility(&changed);
    assert!(!world.get_tile(&center).unwrap().bundle.visible);
    for (x, y) in [(1, 1), (2, 1), (3, 1), (1, 2), (3, 2), (1, 3), (2, 3), (3, 3)] {
        let entity = world.get_tile(&TilePos { x, y }).unwrap();
        assert!(entity.bundle.visible, "({}, {}) must stay revealed", x, y);
    }
}

#[test]
fn post_update_reveals_then_recomputes_in_one_pass() {
    let info = registry();
    let mut world = uniform_world(&info, 5, 5, "ice", false);
    world.post_update();
    let center = TilePos { x: 2, y: 2 };
    let bundle = info.create_bundle("ground", center, 7, true).unwrap();
    world.set(center, bundle);
    world.post_update();
    assert!(world.take_changed().is_empty());
    // Revealed around the visible walkable center…
    assert!(world.get_tile(&TilePos { x: 1, y: 1 }).unwrap().bundle.visible);
    // …and re-masked: the lone ground tile differs from all four neighbors.
    let i = index_of(&world, center);
    assert_eq!(world.tiles[i].as_ref().unwrap().bundle.texture_index, GROUND_BASE + 1);
}

#[test]
fn visibility_does_not_spread_from_an_edge_off_the_map() {
    let info = registry();
    let mut world = uniform_world(&info, 3, 3, "ice", false);
    let _ = world.take_changed();
    let corner = TilePos { x: 0, y: 0 };
    let bundle = info.create_bundle("ground", corner, 7, true).unwrap();
    world.set(corner, bundle);
    let changed = world.take_changed();
    world.update_visibility(&changed);
    assert!(world.get_tile(&TilePos { x: 1, y: 0 }).unwrap().bundle.visible);
    assert!(world.get_tile(&TilePos { x: 0, y: 1 }).unwrap().bundle.visible);
    assert!(world.get_tile(&TilePos { x: 1, y: 1 }).unwrap().bundle.visible);
    assert!(!world.get_tile(&TilePos { x: 2, y: 2 }).unwrap().bundle.visible);
}
