//! Verified core of a grid-world digging game.
//!
//! The crate owns the spatial tile grid and the rules that drive it: grid
//! addressing and the per-cell tile store, the auto-tiling bitmask table,
//! the timed digging state machine, linear movement interpolation between
//! adjacent cells, and the asset load-state aggregator that gates map
//! generation.
//!
//! All times and lengths are fixed-point integers: [`TIME_SCALE`] sub-units
//! make one time unit, and a map's `tile_size` counts world sub-units per
//! grid cell, so the arithmetic is exact and free of rounding surprises.

mod autotile;
mod digging;
mod grid;
mod loading;
mod movement;
mod tiles;
mod world;

pub use autotile::{map_bitmask_to_offset, spec_offset};
pub use digging::{dig_duration, TileDigging};
pub use grid::{
    get_direction_bit, in_bounds, neighbor_pos, neighbors, position_to_index, SquareDirection,
    TilePos, TilemapSize,
};
pub use loading::{
    check_map_asset_loading, detect_assets_loaded, get_group_load_state, mark_map_generated,
    LoadState, LoadingAssets, MainStates, MapAssets, MapStates,
};
pub use movement::{
    animate_moveto, center_in_world, move_player, spawn_player, GridPosition, MoveTo, Player,
    PlayerBundle, WorldPos, WALK_TIME,
};
pub use tiles::{GameTileBundle, TileData, TileInfo, TileTerrain, TileTexture, TileType};
pub use world::{create_map, MapSettings, TileEntity, TileWorld};

use vstd::prelude::*;

verus! {

/// Fixed-point time sub-units per one time unit.
pub const TIME_SCALE: u64 = 1000;

} // verus!
