//! Movement interpolation: an actor's discrete grid position, the transient
//! state that animates it toward an adjacent cell, and the player's
//! per-tick movement decision.

use vstd::prelude::*;

use crate::digging::{dig_duration, spec_dig_duration, TileDigging};
use crate::grid::{
    lemma_index_bijective, neighbor_pos, position_to_index, spec_index, spec_neighbor_pos,
    SquareDirection, TilePos,
};
use crate::tiles::TileTerrain;
use crate::world::{MapSettings, TileEntity, TileWorld};
use crate::TIME_SCALE;

verus! {

/// How long one step onto walkable ground takes: half a time unit.
pub const WALK_TIME: u64 = TIME_SCALE / 2;

/// An actor's authoritative discrete location.
#[derive(Clone, Copy, Debug, PartialEq, Eq, Structural)]
pub struct GridPosition(pub TilePos);

impl Default for GridPosition {
    fn default() -> (r: GridPosition)
        ensures
            r == (GridPosition(TilePos { x: 0, y: 0 })),
    {
        GridPosition(TilePos { x: 0, y: 0 })
    }
}

/// A continuous world-space position, in fixed-point sub-units.
#[derive(Clone, Copy, Debug, PartialEq, Eq, Structural)]
pub struct WorldPos {
    pub x: u64,
    pub y: u64,
}

/// The world-space center of a grid cell on a square map: the coordinate
/// scaled by the cell size.
pub open spec fn spec_center_in_world(pos: TilePos, tile_size: u32) -> WorldPos {
    WorldPos { x: (pos.x * tile_size) as u64, y: (pos.y * tile_size) as u64 }
}

/// Convert a grid coordinate to its cell's world-space center.
pub fn center_in_world(pos: &TilePos, tile_size: u32) -> (r: WorldPos)
    ensures
        r == spec_center_in_world(*pos, tile_size),
{
    proof {
        assert(pos.x * tile_size <= 0xffff_fffe_0000_0001 && pos.y * tile_size
            <= 0xffff_fffe_0000_0001) by (nonlinear_arith)
            requires
                pos.x <= 0xffff_ffffu64,
                pos.y <= 0xffff_ffffu64,
                tile_size <= 0xffff_ffffu64,
        {
        }
    }
    WorldPos { x: pos.x as u64 * tile_size as u64, y: pos.y as u64 * tile_size as u64 }
}

/// One coordinate `elapsed / duration` of the way from `start` to `end`,
/// linearly, with the fractional part truncated.
pub open spec fn spec_lerp(start: u64, end: u64, elapsed: u64, duration: u64) -> u64 {
    if end >= start {
        (start + (end - start) * elapsed / (duration as int)) as u64
    } else {
        (start - (start - end) * elapsed / (duration as int)) as u64
    }
}

/// The quotient `diff * elapsed / duration` never exceeds `diff` while the
/// elapsed time is short of the duration.
proof fn lemma_lerp_step_bounded(diff: int, elapsed: int, duration: int)
    requires
        0 <= diff < 0x1_0000_0000_0000_0000,
        0 <= elapsed < duration,
        elapsed < 0x1_0000_0000_0000_0000,
    ensures
        0 <= diff * elapsed / duration <= diff,
        diff * elapsed < 0x1_0000_0000_0000_0000_0000_0000_0000_0000,
{
    assert(0 <= diff * elapsed && diff * elapsed <= diff * duration && diff * elapsed < 0x1_0000_0000_0000_0000_0000_0000_0000_0000) by (nonlinear_arith)
        requires
            0 <= diff < 0x1_0000_0000_0000_0000,
            0 <= elapsed < duration,
            elapsed < 0x1_0000_0000_0000_0000,
    {
    }
    vstd::arithmetic::div_mod::lemma_div_pos_is_pos(diff * elapsed, duration);
    vstd::arithmetic::div_mod::lemma_div_is_ordered(diff * elapsed, diff * duration, duration);
    vstd::arithmetic::div_mod::lemma_div_by_multiple(diff, duration);
}

fn lerp_coord(start: u64, end: u64, elapsed: u64, duration: u64) -> (r: u64)
    requires
        elapsed < duration,
    ensures
        r == spec_lerp(start, end, elapsed, duration),
{
    if end >= start {
        let diff = end - start;
        proof {
            lemma_lerp_step_bounded(diff as int, elapsed as int, duration as int);
        }
        let q = ((diff as u128) * (elapsed as u128) / (duration as u128)) as u64;
        start + q
    } else {
        let diff = start - end;
        proof {
            lemma_lerp_step_bounded(diff as int, elapsed as int, duration as int);
        }
        let q = ((diff as u128) * (elapsed as u128) / (duration as u128)) as u64;
        start - q
    }
}

/// Transient per-actor movement state: the target cell, the time elapsed so
/// far, and the total movement duration, both fixed-point.
#[derive(Clone, Copy, Debug, PartialEq, Eq, Structural)]
pub struct MoveTo {
    pub target: TilePos,
    pub elapsed_time: u64,
    pub movement_time: u64,
}

impl MoveTo {
    /// A move toward `target` taking `movement_time`, starting now.
    pub fn new(target: TilePos, movement_time: u64) -> (r: MoveTo)
        ensures
            r == (MoveTo { target, elapsed_time: 0u64, movement_time }),
    {
        MoveTo { target, movement_time, elapsed_time: 0 }
    }
}

/// Advance one actor's interpolation by `delta`. Short of the total
/// duration, the rendered position is the linear interpolation between the
/// source and target cell centers and the move continues; at or past it,
/// the grid position commits to the target, the rendered position snaps to
/// the target cell's center, and the move ends (`None`).
pub fn animate_moveto(grid_pos: &mut GridPosition, move_to: MoveTo, delta: u64, tile_size: u32) -> (r: (
    Option<MoveTo>,
    WorldPos,
))
    requires
        move_to.elapsed_time + delta <= u64::MAX,
    ensures
        ({
            let elapsed = (move_to.elapsed_time + delta) as u64;
            let start = spec_center_in_world(old(grid_pos).0, tile_size);
            let end = spec_center_in_world(move_to.target, tile_size);
            if elapsed >= move_to.movement_time {
                &&& final(grid_pos).0 == move_to.target
                &&& r.0 is None
                &&& r.1 == end
            } else {
                &&& *final(grid_pos) == *old(grid_pos)
                &&& r.0 == Some(MoveTo { elapsed_time: elapsed, ..move_to })
                &&& r.1 == (WorldPos {
                    x: spec_lerp(start.x, end.x, elapsed, move_to.movement_time),
                    y: spec_lerp(start.y, end.y, elapsed, move_to.movement_time),
                })
            }
        }),
{
    let elapsed = move_to.elapsed_time + delta;
    if elapsed >= move_to.movement_time {
        grid_pos.0 = move_to.target;
        let end = center_in_world(&move_to.target, tile_size);
        (None, end)
    } else {
        let start = center_in_world(&grid_pos.0, tile_size);
        let end = center_in_world(&move_to.target, tile_size);
        let rendered = WorldPos {
            x: lerp_coord(start.x, end.x, elapsed, move_to.movement_time),
            y: lerp_coord(start.y, end.y, elapsed, move_to.movement_time),
        };
        (Some(MoveTo { target: move_to.target, elapsed_time: elapsed, movement_time: move_to.movement_time }), rendered)
    }
}

/// Marker for the player actor.
#[derive(Clone, Copy, Debug, Default)]
pub struct Player;

/// What the player is spawned with: the marker and a starting grid cell.
#[derive(Clone, Copy, Debug)]
pub struct PlayerBundle {
    pub player: Player,
    pub position: GridPosition,
}

impl Default for PlayerBundle {
    fn default() -> (r: PlayerBundle)
        ensures
            r.position == (GridPosition(TilePos { x: 0, y: 0 })),
    {
        PlayerBundle { player: Player, position: GridPosition(TilePos { x: 0, y: 0 }) }
    }
}

/// Place the player at the map's center cell, with its rendered position at
/// that cell's world-space center.
pub fn spawn_player(map_settings: &MapSettings) -> (r: (PlayerBundle, WorldPos))
    ensures
        r.0.position == (GridPosition(
            TilePos { x: map_settings.size.0 / 2, y: map_settings.size.1 / 2 },
        )),
        r.1 == spec_center_in_world(r.0.position.0, map_settings.tile_size),
{
    let position = GridPosition(TilePos { x: map_settings.size.0 / 2, y: map_settings.size.1 / 2 });
    let world_pos = center_in_world(&position.0, map_settings.tile_size);
    (PlayerBundle { player: Player, position }, world_pos)
}

/// Decide one idle actor's movement for this tick from its intent. A
/// walkable target yields a move of half a time unit; a diggable target
/// starts digging — without moving, and without restarting a countdown
/// already under way — and an impassable target, an off-map target, a
/// moving actor, or no intent leave everything as it is.
pub fn move_player(world: &mut TileWorld, grid_pos: &GridPosition, moving: bool, intent: Option<SquareDirection>) -> (r: Option<MoveTo>)
    requires
        old(world).wf(),
        old(world).populated(),
        intent matches Some(d) ==> d.is_orthogonal(),
    ensures
        final(world).wf(),
        final(world).populated(),
        final(world).size == old(world).size,
        final(world).next_id == old(world).next_id,
        final(world).changed@ == old(world).changed@,
        ({
            let size = old(world).size;
            if moving || intent is None {
                r is None && final(world).tiles@ == old(world).tiles@
            } else {
                match spec_neighbor_pos(grid_pos.0, intent->Some_0, size) {
                    Option::None => r is None && final(world).tiles@ == old(world).tiles@,
                    Option::Some(np) => {
                        let e = old(world).spec_tile_at(np)->Some_0;
                        match e.bundle.tile_terrain {
                            TileTerrain::Walkable => r == Some(
                                MoveTo { target: np, elapsed_time: 0u64, movement_time: WALK_TIME },
                            ) && final(world).tiles@ == old(world).tiles@,
                            TileTerrain::Diggable { level, hardness } => r is None
                                && if e.digging is None {
                                final(world).tiles@ == old(world).tiles@.update(
                                    spec_index(np, size),
                                    Some(
                                        TileEntity {
                                            id: e.id,
                                            bundle: e.bundle,
                                            digging: Some(
                                                TileDigging {
                                                    elapsed: 0u64,
                                                    duration: spec_dig_duration(hardness),
                                                },
                                            ),
                                        },
                                    ),
                                )
                            } else {
                                final(world).tiles@ == old(world).tiles@
                            },
                            TileTerrain::Impassable => r is None && final(world).tiles@ == old(
                                world,
                            ).tiles@,
                        }
                    },
                }
            }
        }),
{
    if moving {
        return None;
    }
    let direction = match intent {
        Some(d) => d,
        None => {
            return None;
        },
    };
    let np = match neighbor_pos(&grid_pos.0, direction, &world.size) {
        Some(np) => np,
        None => {
            return None;
        },
    };
    proof {
        lemma_index_bijective(np, world.size);
    }
    let i = position_to_index(&np, &world.size);
    let hardness: u32 = match &world.tiles[i] {
        Some(e) => match e.bundle.tile_terrain {
            TileTerrain::Walkable => {
                return Some(MoveTo::new(np, WALK_TIME));
            },
            TileTerrain::Diggable { level: _, hardness } => {
                if e.digging.is_some() {
                    return None;
                }
                hardness
            },
            TileTerrain::Impassable => {
                return None;
            },
        },
        None => unreached(),
    };
    let time = dig_duration(hardness);
    match &mut world.tiles[i] {
        Some(e) => {
            e.digging = Some(TileDigging::new(time));
        },
        None => {},
    }
    None
}

} // verus!
