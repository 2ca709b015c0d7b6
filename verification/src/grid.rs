//! Grid addressing: tile coordinates, map extent, directions, and
//! bounds-checked neighbor enumeration.

use vstd::prelude::*;

verus! {

/// An unsigned (x, y) tile coordinate. Used as the key into the tile store.
#[derive(Clone, Copy, Debug, PartialEq, Eq, Structural, Hash)]
pub struct TilePos {
    pub x: u32,
    pub y: u32,
}

impl TilePos {
    pub fn new(x: u32, y: u32) -> (r: TilePos)
        ensures
            r == (TilePos { x, y }),
    {
        TilePos { x, y }
    }
}

/// The (width, height) of the grid, immutable after map generation.
#[derive(Clone, Copy, Debug, PartialEq, Eq, Structural)]
pub struct TilemapSize {
    pub x: u32,
    pub y: u32,
}

/// One of the eight square-grid directions. The orthogonal four drive the
/// auto-tiling bitmask; all eight drive visibility propagation.
#[derive(Clone, Copy, Debug, PartialEq, Eq, Structural)]
pub enum SquareDirection {
    East,
    NorthEast,
    North,
    NorthWest,
    West,
    SouthWest,
    South,
    SouthEast,
}

impl SquareDirection {
    pub open spec fn is_orthogonal(self) -> bool {
        self == SquareDirection::North || self == SquareDirection::East
            || self == SquareDirection::South || self == SquareDirection::West
    }

    /// Horizontal step of this direction (east positive).
    pub open spec fn dx(self) -> int {
        match self {
            SquareDirection::East => 1,
            SquareDirection::NorthEast => 1,
            SquareDirection::North => 0,
            SquareDirection::NorthWest => -1,
            SquareDirection::West => -1,
            SquareDirection::SouthWest => -1,
            SquareDirection::South => 0,
            SquareDirection::SouthEast => 1,
        }
    }

    /// Vertical step of this direction (north positive).
    pub open spec fn dy(self) -> int {
        match self {
            SquareDirection::East => 0,
            SquareDirection::NorthEast => 1,
            SquareDirection::North => 1,
            SquareDirection::NorthWest => 1,
            SquareDirection::West => 0,
            SquareDirection::SouthWest => -1,
            SquareDirection::South => -1,
            SquareDirection::SouthEast => -1,
        }
    }
}

/// The bit a direction contributes to the auto-tiling mask. Only the four
/// orthogonal directions carry a bit.
pub open spec fn spec_direction_bit(direction: SquareDirection) -> u8 {
    match direction {
        SquareDirection::North => 1,
        SquareDirection::East => 2,
        SquareDirection::South => 4,
        SquareDirection::West => 8,
        _ => 0,
    }
}

/// Translate an orthogonal direction to its mask bit.
pub fn get_direction_bit(direction: SquareDirection) -> (bit: u8)
    requires
        direction.is_orthogonal(),
    ensures
        bit == spec_direction_bit(direction),
{
    match direction {
        SquareDirection::North => 1,
        SquareDirection::East => 2,
        SquareDirection::South => 4,
        SquareDirection::West => 8,
        _ => 0,
    }
}

pub open spec fn spec_in_bounds(pos: TilePos, size: TilemapSize) -> bool {
    pos.x < size.x && pos.y < size.y
}

/// Bounds-check a coordinate against the map extent.
pub fn in_bounds(pos: &TilePos, size: &TilemapSize) -> (r: bool)
    ensures
        r == spec_in_bounds(*pos, *size),
{
    pos.x < size.x && pos.y < size.y
}

/// Row-major index of an in-bounds coordinate.
pub open spec fn spec_index(pos: TilePos, size: TilemapSize) -> int {
    pos.y * size.x + pos.x
}

/// Coordinate of a row-major index.
pub open spec fn spec_pos_of_index(i: int, size: TilemapSize) -> TilePos {
    TilePos { x: (i % (size.x as int)) as u32, y: (i / (size.x as int)) as u32 }
}

pub proof fn lemma_index_bijective(pos: TilePos, size: TilemapSize)
    requires
        spec_in_bounds(pos, size),
    ensures
        0 <= spec_index(pos, size) < size.x * size.y,
        spec_pos_of_index(spec_index(pos, size), size) == pos,
{
    let w = size.x as int;
    let i = spec_index(pos, size);
    assert(0 <= i < size.x * size.y) by (nonlinear_arith)
        requires
            i == pos.y * size.x + pos.x,
            pos.x < size.x,
            pos.y < size.y,
    {
    }
    vstd::arithmetic::div_mod::lemma_fundamental_div_mod_converse_mod(i, w, pos.y as int, pos.x as int);
    vstd::arithmetic::div_mod::lemma_fundamental_div_mod_converse_div(i, w, pos.y as int, pos.x as int);
}

pub proof fn lemma_pos_of_index_bijective(i: int, size: TilemapSize)
    requires
        0 <= i < size.x * size.y,
    ensures
        spec_in_bounds(spec_pos_of_index(i, size), size),
        spec_index(spec_pos_of_index(i, size), size) == i,
{
    let w = size.x as int;
    let h = size.y as int;
    assert(w > 0 && h > 0) by (nonlinear_arith)
        requires
            0 <= i < w * h,
            w >= 0,
            h >= 0,
    {
    }
    vstd::arithmetic::div_mod::lemma_mod_bound(i, w);
    vstd::arithmetic::div_mod::lemma_div_pos_is_pos(i, w);
    vstd::arithmetic::div_mod::lemma_multiply_divide_lt(i, w, h);
    vstd::arithmetic::div_mod::lemma_fundamental_div_mod(i, w);
    vstd::arithmetic::mul::lemma_mul_is_commutative(w, i / w);
}

/// Convert a coordinate to its row-major store index.
pub fn position_to_index(pos: &TilePos, size: &TilemapSize) -> (i: usize)
    requires
        spec_in_bounds(*pos, *size),
        size.x * size.y <= usize::MAX,
    ensures
        i == spec_index(*pos, *size),
        i < size.x * size.y,
{
    proof {
        lemma_index_bijective(*pos, *size);
    }
    (pos.y as usize) * (size.x as usize) + (pos.x as usize)
}

/// The coordinate one step in a direction, or `None` when that step leaves
/// the map.
pub open spec fn spec_neighbor_pos(pos: TilePos, direction: SquareDirection, size: TilemapSize) -> Option<TilePos> {
    let nx = pos.x + direction.dx();
    let ny = pos.y + direction.dy();
    if 0 <= nx < size.x && 0 <= ny < size.y {
        Some(TilePos { x: nx as u32, y: ny as u32 })
    } else {
        None
    }
}

/// Step one cell in a direction, filtering out coordinates outside the map.
pub fn neighbor_pos(pos: &TilePos, direction: SquareDirection, size: &TilemapSize) -> (r: Option<TilePos>)
    ensures
        r == spec_neighbor_pos(*pos, direction, *size),
{
    let stepped: Option<(u64, u64)> = match direction {
        SquareDirection::East => Some((pos.x as u64 + 1, pos.y as u64)),
        SquareDirection::NorthEast => Some((pos.x as u64 + 1, pos.y as u64 + 1)),
        SquareDirection::North => Some((pos.x as u64, pos.y as u64 + 1)),
        SquareDirection::NorthWest => {
            if pos.x == 0 {
                None
            } else {
                Some((pos.x as u64 - 1, pos.y as u64 + 1))
            }
        },
        SquareDirection::West => {
            if pos.x == 0 {
                None
            } else {
                Some((pos.x as u64 - 1, pos.y as u64))
            }
        },
        SquareDirection::SouthWest => {
            if pos.x == 0 || pos.y == 0 {
                None
            } else {
                Some((pos.x as u64 - 1, pos.y as u64 - 1))
            }
        },
        SquareDirection::South => {
            if pos.y == 0 {
                None
            } else {
                Some((pos.x as u64, pos.y as u64 - 1))
            }
        },
        SquareDirection::SouthEast => {
            if pos.y == 0 {
                None
            } else {
                Some((pos.x as u64 + 1, pos.y as u64 - 1))
            }
        },
    };
    match stepped {
        Some((nx, ny)) => {
            if nx < size.x as u64 && ny < size.y as u64 {
                Some(TilePos { x: nx as u32, y: ny as u32 })
            } else {
                None
            }
        },
        None => None,
    }
}

/// The fixed enumeration order of directions: the orthogonal four, then,
/// when diagonals are asked for, the diagonal four.
pub open spec fn spec_direction_list(diagonal: bool) -> Seq<SquareDirection> {
    if diagonal {
        seq![
            SquareDirection::North,
            SquareDirection::East,
            SquareDirection::South,
            SquareDirection::West,
            SquareDirection::NorthEast,
            SquareDirection::SouthEast,
            SquareDirection::SouthWest,
            SquareDirection::NorthWest,
        ]
    } else {
        seq![
            SquareDirection::North,
            SquareDirection::East,
            SquareDirection::South,
            SquareDirection::West,
        ]
    }
}

/// The entry a single direction contributes to the neighbor list.
pub open spec fn spec_neighbor_entry(pos: TilePos, direction: SquareDirection, size: TilemapSize) -> Seq<(SquareDirection, TilePos)> {
    match spec_neighbor_pos(pos, direction, size) {
        Some(p) => seq![(direction, p)],
        None => Seq::empty(),
    }
}

/// The in-bounds neighbors of a coordinate, in the fixed direction order.
pub open spec fn spec_neighbors(pos: TilePos, size: TilemapSize, diagonal: bool) -> Seq<(SquareDirection, TilePos)>
    decreases spec_direction_list(diagonal).len(),
{
    spec_neighbors_of(pos, size, spec_direction_list(diagonal))
}

pub open spec fn spec_neighbors_of(pos: TilePos, size: TilemapSize, directions: Seq<SquareDirection>) -> Seq<(SquareDirection, TilePos)>
    decreases directions.len(),
{
    if directions.len() == 0 {
        Seq::empty()
    } else {
        spec_neighbor_entry(pos, directions[0], size) + spec_neighbors_of(pos, size, directions.skip(1))
    }
}

/// Enumerate the up-to-4 (or, with diagonals, up-to-8) in-bounds neighbors
/// of a coordinate, each with the direction it lies in.
pub fn neighbors(pos: &TilePos, size: &TilemapSize, diagonal: bool) -> (r: Vec<(SquareDirection, TilePos)>)
    ensures
        r@ == spec_neighbors(*pos, *size, diagonal),
{
    let directions: Vec<SquareDirection> = if diagonal {
        vec![
            SquareDirection::North,
            SquareDirection::East,
            SquareDirection::South,
            SquareDirection::West,
            SquareDirection::NorthEast,
            SquareDirection::SouthEast,
            SquareDirection::SouthWest,
            SquareDirection::NorthWest,
        ]
    } else {
        vec![
            SquareDirection::North,
            SquareDirection::East,
            SquareDirection::South,
            SquareDirection::West,
        ]
    };
    proof {
        assert(directions@ =~= spec_direction_list(diagonal));
    }
    let mut r: Vec<(SquareDirection, TilePos)> = Vec::new();
    let mut i: usize = 0;
    proof {
        assert(directions@.skip(0) =~= directions@);
        assert(r@ + spec_neighbors_of(*pos, *size, directions@) =~= spec_neighbors_of(*pos, *size, directions@));
    }
    while i < directions.len()
        invariant
            i <= directions.len(),
            directions@ == spec_direction_list(diagonal),
            spec_neighbors_of(*pos, *size, directions@) == r@ + spec_neighbors_of(*pos, *size, directions@.skip(i as int)),
        decreases directions.len() - i,
    {
        proof {
            assert(directions@.skip(i as int)[0] == directions@[i as int]);
            assert(directions@.skip(i as int).skip(1) =~= directions@.skip(i as int + 1));
        }
        match neighbor_pos(pos, directions[i], size) {
            Some(p) => {
                r.push((directions[i], p));
            },
            None => {},
        }
        i = i + 1;
    }
    proof {
        assert(directions@.skip(directions@.len() as int) =~= Seq::<SquareDirection>::empty());
        assert(r@ =~= spec_neighbors(*pos, *size, diagonal));
    }
    r
}

} // verus!
