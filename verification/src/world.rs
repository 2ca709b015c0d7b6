//! The tile entity store: one live tile entity per in-bounds coordinate,
//! replaced wholesale — never mutated in place — whenever a cell's terrain
//! or texture rule changes. Each replacement receives a fresh identity and
//! queues the coordinate for recomputation.

use vstd::prelude::*;

use crate::autotile::{map_bitmask_to_offset, spec_offset};
use crate::digging::TileDigging;
use crate::grid::{
    lemma_index_bijective, neighbor_pos, position_to_index, spec_in_bounds, spec_index,
    spec_neighbor_pos, spec_pos_of_index, SquareDirection, TilePos, TilemapSize,
};
use crate::tiles::{
    spec_base_index, GameTileBundle, TileData, TileInfo, TileTerrain, TileTexture, TileType,
};

verus! {

/// A live cell: a stable identity, the bundle the cell was stocked with,
/// and, mid-excavation, a digging countdown.
#[derive(Clone, Debug)]
pub struct TileEntity {
    pub id: u64,
    pub bundle: GameTileBundle,
    pub digging: Option<TileDigging>,
}

/// Map generation parameters: tile counts and world sub-units per cell.
#[derive(Clone, Copy, Debug)]
pub struct MapSettings {
    pub size: (u32, u32),
    pub tile_size: u32,
}

impl Default for MapSettings {
    fn default() -> (r: MapSettings)
        ensures
            r == (MapSettings { size: (0u32, 0u32), tile_size: 0u32 }),
    {
        MapSettings { size: (0, 0), tile_size: 0 }
    }
}

/// A directional texture rule must leave room in the atlas for the sixteen
/// offsets added to its base index.
pub open spec fn spec_texture_ok(texture: TileTexture) -> bool {
    match texture {
        TileTexture::Directional(base) => base + 15 <= u32::MAX,
        TileTexture::Single(_) => true,
    }
}

/// The tile entity store, addressed row-major by coordinate. `changed`
/// queues every coordinate whose cell was replaced since the queue was last
/// drained, for auto-tiling and visibility recomputation.
#[derive(Debug)]
pub struct TileWorld {
    pub size: TilemapSize,
    pub tiles: Vec<Option<TileEntity>>,
    pub next_id: u64,
    pub changed: Vec<TilePos>,
}

impl TileWorld {
    /// Store invariant: one slot per in-bounds coordinate; every live entity
    /// sits at the slot of its own coordinate, has an identity below
    /// `next_id`, respects the atlas bound, and carries a digging countdown
    /// only while its terrain is diggable.
    pub open spec fn wf(&self) -> bool {
        &&& self.size.x * self.size.y <= usize::MAX
        &&& self.tiles@.len() == self.size.x * self.size.y
        &&& forall|i: int|
            0 <= i < self.tiles@.len() ==> match #[trigger] self.tiles@[i] {
                Option::Some(e) => {
                    &&& e.bundle.position == spec_pos_of_index(i, self.size)
                    &&& e.id < self.next_id
                    &&& spec_texture_ok(e.bundle.tile_texture)
                    &&& match e.digging {
                        Option::Some(d) => d.wf() && e.bundle.tile_terrain is Diggable,
                        Option::None => true,
                    }
                },
                Option::None => true,
            }
        &&& forall|j: int|
            0 <= j < self.changed@.len() ==> spec_in_bounds(#[trigger] self.changed@[j], self.size)
    }

    /// Whether every in-bounds coordinate holds a live tile, as the grid
    /// must after map generation.
    pub open spec fn populated(&self) -> bool {
        forall|i: int| 0 <= i < self.tiles@.len() ==> (#[trigger] self.tiles@[i]) is Some
    }

    /// The cell at an in-bounds coordinate.
    pub open spec fn spec_tile_at(&self, pos: TilePos) -> Option<TileEntity> {
        self.tiles@[spec_index(pos, self.size)]
    }

    /// An empty store covering the map extent.
    pub fn empty(size: TilemapSize) -> (w: TileWorld)
        requires
            size.x * size.y <= usize::MAX,
        ensures
            w.wf(),
            w.size == size,
            w.next_id == 0,
            w.changed@ == Seq::<TilePos>::empty(),
            w.tiles@.len() == size.x * size.y,
            forall|i: int| 0 <= i < w.tiles@.len() ==> (#[trigger] w.tiles@[i]) is None,
    {
        let n: usize = (size.x as usize) * (size.y as usize);
        let mut tiles: Vec<Option<TileEntity>> = Vec::new();
        let mut i: usize = 0;
        while i < n
            invariant
                i <= n,
                tiles@.len() == i,
                forall|j: int| 0 <= j < i ==> (#[trigger] tiles@[j]) is None,
            decreases n - i,
        {
            tiles.push(None);
            i = i + 1;
        }
        TileWorld { size, tiles, next_id: 0, changed: Vec::new() }
    }

    /// The identity of the tile occupying a coordinate, or `None` when the
    /// cell is empty.
    pub fn get(&self, pos: &TilePos) -> (r: Option<u64>)
        requires
            self.wf(),
            spec_in_bounds(*pos, self.size),
        ensures
            match self.spec_tile_at(*pos) {
                Option::Some(e) => r == Some(e.id),
                Option::None => r is None,
            },
    {
        proof {
            lemma_index_bijective(*pos, self.size);
        }
        let i = position_to_index(pos, &self.size);
        match &self.tiles[i] {
            Some(e) => Some(e.id),
            None => None,
        }
    }

    /// Borrow the tile occupying a coordinate.
    pub fn get_tile(&self, pos: &TilePos) -> (r: Option<&TileEntity>)
        requires
            self.wf(),
            spec_in_bounds(*pos, self.size),
        ensures
            match r {
                Option::Some(e) => self.spec_tile_at(*pos) == Some(*e),
                Option::None => self.spec_tile_at(*pos) is None,
            },
    {
        proof {
            lemma_index_bijective(*pos, self.size);
        }
        let i = position_to_index(pos, &self.size);
        self.tiles[i].as_ref()
    }

    /// Replace whatever occupies `pos` with a fresh entity stocked with
    /// `bundle`: an atomic swap that retires the previous identity, assigns
    /// the next one, and queues the coordinate for recomputation.
    pub fn set(&mut self, pos: TilePos, bundle: GameTileBundle)
        requires
            old(self).wf(),
            spec_in_bounds(pos, old(self).size),
            bundle.position == pos,
            spec_texture_ok(bundle.tile_texture),
            old(self).next_id < u64::MAX,
        ensures
            final(self).wf(),
            final(self).size == old(self).size,
            final(self).next_id == old(self).next_id + 1,
            final(self).tiles@ == old(self).tiles@.update(
                spec_index(pos, old(self).size),
                Some(TileEntity { id: old(self).next_id, bundle, digging: None }),
            ),
            final(self).changed@ == old(self).changed@.push(pos),
    {
        proof {
            lemma_index_bijective(pos, self.size);
        }
        let i = position_to_index(&pos, &self.size);
        let id = self.next_id;
        self.tiles[i] = Some(TileEntity { id, bundle, digging: None });
        self.next_id = self.next_id + 1;
        self.changed.push(pos);
    }
}

/// The grouping key of the tile at an in-bounds coordinate of a populated
/// store.
pub open spec fn spec_type_at(tiles: Seq<Option<TileEntity>>, size: TilemapSize, pos: TilePos) -> Seq<char> {
    tiles[spec_index(pos, size)]->Some_0.bundle.tile_type@
}

/// Whether, seen from `pos`, the tile one step in `direction` is absent
/// (off the map) or of a different grouping type.
pub open spec fn spec_differs(tiles: Seq<Option<TileEntity>>, size: TilemapSize, pos: TilePos, direction: SquareDirection) -> bool {
    match spec_neighbor_pos(pos, direction, size) {
        Option::None => true,
        Option::Some(np) => spec_type_at(tiles, size, np) != spec_type_at(tiles, size, pos),
    }
}

/// The 4-bit neighbor-difference mask of a coordinate: North = 1, East = 2,
/// South = 4, West = 8, a bit per differing or absent neighbor.
pub open spec fn spec_mask(tiles: Seq<Option<TileEntity>>, size: TilemapSize, pos: TilePos) -> u8 {
    ((if spec_differs(tiles, size, pos, SquareDirection::North) {
        1int
    } else {
        0int
    }) + (if spec_differs(tiles, size, pos, SquareDirection::East) {
        2int
    } else {
        0int
    }) + (if spec_differs(tiles, size, pos, SquareDirection::South) {
        4int
    } else {
        0int
    }) + (if spec_differs(tiles, size, pos, SquareDirection::West) {
        8int
    } else {
        0int
    })) as u8
}

/// The cell at `pos` after one auto-tiling recompute: a directional tile's
/// displayed index becomes its base plus the mask's table offset; a
/// single-texture tile, or an empty cell, is untouched.
pub open spec fn spec_retiled(tiles: Seq<Option<TileEntity>>, size: TilemapSize, pos: TilePos) -> Option<TileEntity> {
    match tiles[spec_index(pos, size)] {
        Option::None => Option::None,
        Option::Some(e) => match e.bundle.tile_texture {
            TileTexture::Single(_) => Some(e),
            TileTexture::Directional(base) => Some(
                TileEntity {
                    bundle: GameTileBundle {
                        texture_index: (base + spec_offset(spec_mask(tiles, size, pos))) as u32,
                        ..e.bundle
                    },
                    ..e
                },
            ),
        },
    }
}

/// [`spec_retiled`] phrased at a store index.
pub open spec fn spec_resolved_at(tiles: Seq<Option<TileEntity>>, size: TilemapSize, i: int) -> Option<TileEntity> {
    spec_retiled(tiles, size, spec_pos_of_index(i, size))
}

/// The indices a recompute of `pos` touches: its own cell and its in-bounds
/// orthogonal neighbors.
pub open spec fn spec_touches(pos: TilePos, size: TilemapSize, i: int) -> bool {
    ||| i == spec_index(pos, size)
    ||| exists|d: SquareDirection|
        d.is_orthogonal() && #[trigger] spec_neighbor_pos(pos, d, size) == Some(
            spec_pos_of_index(i, size),
        )
}

/// The indices touched by recomputing every coordinate in `changed`.
pub open spec fn spec_touched_by(changed: Seq<TilePos>, size: TilemapSize, i: int) -> bool {
    exists|j: int| 0 <= j < changed.len() && spec_touches(#[trigger] changed[j], size, i)
}

/// Two stores with the same shape and the same grouping types everywhere.
pub open spec fn spec_types_eq(a: Seq<Option<TileEntity>>, b: Seq<Option<TileEntity>>) -> bool {
    &&& a.len() == b.len()
    &&& forall|i: int|
        0 <= i < a.len() ==> ((#[trigger] a[i]) is Some == (#[trigger] b[i]) is Some && (a[i] is Some
            ==> a[i]->Some_0.bundle.tile_type@ == b[i]->Some_0.bundle.tile_type@))
}

/// The neighbor mask reads only grouping types, so equal types give equal
/// masks.
pub proof fn lemma_mask_types_only(a: Seq<Option<TileEntity>>, b: Seq<Option<TileEntity>>, size: TilemapSize, pos: TilePos)
    requires
        spec_types_eq(a, b),
        spec_in_bounds(pos, size),
        a.len() == size.x * size.y,
    ensures
        spec_mask(a, size, pos) == spec_mask(b, size, pos),
{
    lemma_index_bijective(pos, size);
    assert forall|d: SquareDirection| #[trigger]
        spec_differs(a, size, pos, d) == spec_differs(b, size, pos, d) by {
        match spec_neighbor_pos(pos, d, size) {
            Option::None => {},
            Option::Some(np) => {
                lemma_index_bijective(np, size);
            },
        }
    }
}

/// A store whose every cell is either untouched or resolved keeps both the
/// cells and the masks a further recompute reads, so recomputing `pos` in it
/// gives the same cell as recomputing `pos` before any of it happened.
pub proof fn lemma_retiled_stable(a: Seq<Option<TileEntity>>, b: Seq<Option<TileEntity>>, size: TilemapSize, pos: TilePos)
    requires
        a.len() == b.len(),
        a.len() == size.x * size.y,
        spec_in_bounds(pos, size),
        forall|i: int|
            0 <= i < a.len() ==> (#[trigger] b[i] == a[i] || b[i] == spec_resolved_at(a, size, i)),
    ensures
        spec_retiled(b, size, pos) == spec_retiled(a, size, pos),
{
    assert forall|i: int| 0 <= i < a.len() implies ((#[trigger] a[i]) is Some == (
    #[trigger] b[i]) is Some && (a[i] is Some ==> a[i]->Some_0.bundle.tile_type@
        == b[i]->Some_0.bundle.tile_type@)) by {
        if b[i] != a[i] {
            crate::grid::lemma_pos_of_index_bijective(i, size);
            assert(b[i] == spec_resolved_at(a, size, i));
        }
    }
    lemma_mask_types_only(a, b, size, pos);
    lemma_index_bijective(pos, size);
    let i = spec_index(pos, size);
    if b[i] != a[i] {
        assert(b[i] == spec_resolved_at(a, size, i));
        assert(spec_pos_of_index(i, size) == pos);
    }
}

impl TileWorld {
    /// Borrow the grouping key of the tile at an in-bounds coordinate.
    fn tile_type_at(&self, pos: &TilePos) -> (r: &TileType)
        requires
            self.wf(),
            self.populated(),
            spec_in_bounds(*pos, self.size),
        ensures
            r@ == spec_type_at(self.tiles@, self.size, *pos),
    {
        proof {
            lemma_index_bijective(*pos, self.size);
        }
        let i = position_to_index(pos, &self.size);
        match &self.tiles[i] {
            Some(e) => &e.bundle.tile_type,
            None => unreached(),
        }
    }

    /// Whether the neighbor one step in `direction` is absent or belongs to
    /// a different auto-tiling group than the tile at `pos`.
    fn differs(&self, pos: &TilePos, direction: SquareDirection) -> (r: bool)
        requires
            self.wf(),
            self.populated(),
            spec_in_bounds(*pos, self.size),
        ensures
            r == spec_differs(self.tiles@, self.size, *pos, direction),
    {
        match neighbor_pos(pos, direction, &self.size) {
            None => true,
            Some(np) => !self.tile_type_at(&np).same_type(self.tile_type_at(pos)),
        }
    }

    /// Recompute the displayed texture index of the tile at `pos` from its
    /// four orthogonal neighbors, per the auto-tiling table. Only a
    /// directional tile's displayed index changes; everything else — the
    /// entity's identity included — stays.
    pub fn update_tile(&mut self, pos: &TilePos)
        requires
            old(self).wf(),
            old(self).populated(),
            spec_in_bounds(*pos, old(self).size),
        ensures
            final(self).wf(),
            final(self).populated(),
            final(self).size == old(self).size,
            final(self).next_id == old(self).next_id,
            final(self).changed@ == old(self).changed@,
            final(self).tiles@ == old(self).tiles@.update(
                spec_index(*pos, old(self).size),
                spec_retiled(old(self).tiles@, old(self).size, *pos),
            ),
    {
        let ghost tiles0 = self.tiles@;
        let n = self.differs(pos, SquareDirection::North);
        let e = self.differs(pos, SquareDirection::East);
        let s = self.differs(pos, SquareDirection::South);
        let w = self.differs(pos, SquareDirection::West);
        let mask: u8 = (if n {
            1
        } else {
            0
        }) + (if e {
            2
        } else {
            0
        }) + (if s {
            4
        } else {
            0
        }) + (if w {
            8
        } else {
            0
        });
        proof {
            assert(mask == spec_mask(tiles0, self.size, *pos));
            lemma_index_bijective(*pos, self.size);
        }
        let offset = map_bitmask_to_offset(mask);
        let i = position_to_index(pos, &self.size);
        match &mut self.tiles[i] {
            Some(entity) => {
                match entity.bundle.tile_texture {
                    TileTexture::Directional(base) => {
                        proof {
                            assert(spec_offset(mask) <= 15);
                        }
                        entity.bundle.texture_index = base + offset;
                    },
                    TileTexture::Single(_) => {},
                }
            },
            None => {},
        }
        proof {
            assert(self.tiles@ =~= tiles0.update(
                spec_index(*pos, self.size),
                spec_retiled(tiles0, self.size, *pos),
            ));
        }
    }

    /// Recompute `pos` and all of its in-bounds orthogonal neighbors — the
    /// full region a change at `pos` can have re-masked.
    pub fn refresh_region(&mut self, pos: &TilePos)
        requires
            old(self).wf(),
            old(self).populated(),
            spec_in_bounds(*pos, old(self).size),
        ensures
            final(self).wf(),
            final(self).populated(),
            final(self).size == old(self).size,
            final(self).next_id == old(self).next_id,
            final(self).changed@ == old(self).changed@,
            final(self).tiles@.len() == old(self).tiles@.len(),
            forall|i: int|
                0 <= i < old(self).tiles@.len() ==> #[trigger] final(self).tiles@[i] == if spec_touches(
                    *pos,
                    old(self).size,
                    i,
                ) {
                    spec_resolved_at(old(self).tiles@, old(self).size, i)
                } else {
                    old(self).tiles@[i]
                },
    {
        let ghost tiles0 = self.tiles@;
        let ghost size = self.size;
        proof {
            lemma_index_bijective(*pos, size);
        }
        self.update_tile(pos);
        let directions: Vec<SquareDirection> = vec![
            SquareDirection::North,
            SquareDirection::East,
            SquareDirection::South,
            SquareDirection::West,
        ];
        let mut k: usize = 0;
        while k < directions.len()
            invariant
                k <= directions.len(),
                directions@.len() == 4,
                directions@[0] == SquareDirection::North,
                directions@[1] == SquareDirection::East,
                directions@[2] == SquareDirection::South,
                directions@[3] == SquareDirection::West,
                self.wf(),
                self.populated(),
                self.size == size,
                self.next_id == old(self).next_id,
                self.changed@ == old(self).changed@,
                self.tiles@.len() == tiles0.len(),
                tiles0.len() == size.x * size.y,
                tiles0 == old(self).tiles@,
                spec_in_bounds(*pos, size),
                forall|i: int|
                    0 <= i < tiles0.len() ==> #[trigger] self.tiles@[i] == if i == spec_index(
                        *pos,
                        size,
                    ) || exists|j: int|
                        0 <= j < k && #[trigger] spec_neighbor_pos(*pos, directions@[j], size)
                            == Some(spec_pos_of_index(i, size)) {
                        spec_resolved_at(tiles0, size, i)
                    } else {
                        tiles0[i]
                    },
            decreases directions.len() - k,
        {
            let ghost tiles_mid = self.tiles@;
            match neighbor_pos(pos, directions[k], &self.size) {
                Some(np) => {
                    proof {
                        lemma_index_bijective(np, size);
                        assert forall|i: int| 0 <= i < tiles0.len() implies (#[trigger] tiles_mid[i]
                            == tiles0[i] || tiles_mid[i] == spec_resolved_at(tiles0, size, i)) by {}
                        lemma_retiled_stable(tiles0, tiles_mid, size, np);
                    }
                    self.update_tile(&np);
                    proof {
                        assert(spec_pos_of_index(spec_index(np, size), size) == np);
                        assert forall|i: int| 0 <= i < tiles0.len() implies #[trigger] self.tiles@[i]
                            == if i == spec_index(*pos, size) || exists|j: int|
                            0 <= j < k + 1 && #[trigger] spec_neighbor_pos(
                                *pos,
                                directions@[j],
                                size,
                            ) == Some(spec_pos_of_index(i, size)) {
                            spec_resolved_at(tiles0, size, i)
                        } else {
                            tiles0[i]
                        } by {
                            crate::grid::lemma_pos_of_index_bijective(i, size);
                            if i == spec_index(np, size) {
                                assert(spec_neighbor_pos(*pos, directions@[k as int], size) == Some(
                                    spec_pos_of_index(i, size),
                                ));
                            }
                        }
                    }
                },
                None => {
                    proof {
                        assert forall|i: int| 0 <= i < tiles0.len() implies #[trigger] self.tiles@[i]
                            == if i == spec_index(*pos, size) || exists|j: int|
                            0 <= j < k + 1 && #[trigger] spec_neighbor_pos(
                                *pos,
                                directions@[j],
                                size,
                            ) == Some(spec_pos_of_index(i, size)) {
                            spec_resolved_at(tiles0, size, i)
                        } else {
                            tiles0[i]
                        } by {}
                    }
                },
            }
            k = k + 1;
        }
        proof {
            assert forall|i: int| 0 <= i < tiles0.len() implies #[trigger] self.tiles@[i]
                == if spec_touches(*pos, size, i) {
                spec_resolved_at(tiles0, size, i)
            } else {
                tiles0[i]
            } by {
                if spec_touches(*pos, size, i) && i != spec_index(*pos, size) {
                    let d = choose|d: SquareDirection|
                        d.is_orthogonal() && #[trigger] spec_neighbor_pos(*pos, d, size) == Some(
                            spec_pos_of_index(i, size),
                        );
                    if d == SquareDirection::North {
                        assert(spec_neighbor_pos(*pos, directions@[0], size) == Some(
                            spec_pos_of_index(i, size),
                        ));
                    } else if d == SquareDirection::East {
                        assert(spec_neighbor_pos(*pos, directions@[1], size) == Some(
                            spec_pos_of_index(i, size),
                        ));
                    } else if d == SquareDirection::South {
                        assert(spec_neighbor_pos(*pos, directions@[2], size) == Some(
                            spec_pos_of_index(i, size),
                        ));
                    } else {
                        assert(spec_neighbor_pos(*pos, directions@[3], size) == Some(
                            spec_pos_of_index(i, size),
                        ));
                    }
                }
                if !spec_touches(*pos, size, i) {
                    assert(forall|j: int|
                        0 <= j < 4 ==> (#[trigger] directions@[j]).is_orthogonal());
                }
            }
        }
    }

    /// Apply the trigger policy: recompute every replaced coordinate and all
    /// of its orthogonal neighbors, whose masks the replacement may have
    /// changed. Cells outside those regions are untouched.
    pub fn update_directional_tiles(&mut self, changed: &Vec<TilePos>)
        requires
            old(self).wf(),
            old(self).populated(),
            forall|j: int|
                0 <= j < changed@.len() ==> spec_in_bounds(
                    #[trigger] changed@[j],
                    old(self).size,
                ),
        ensures
            final(self).wf(),
            final(self).populated(),
            final(self).size == old(self).size,
            final(self).next_id == old(self).next_id,
            final(self).changed@ == old(self).changed@,
            final(self).tiles@.len() == old(self).tiles@.len(),
            forall|i: int|
                0 <= i < old(self).tiles@.len() ==> #[trigger] final(self).tiles@[i]
                    == if spec_touched_by(changed@, old(self).size, i) {
                    spec_resolved_at(old(self).tiles@, old(self).size, i)
                } else {
                    old(self).tiles@[i]
                },
    {
        let ghost tiles0 = self.tiles@;
        let ghost size = self.size;
        let mut j: usize = 0;
        while j < changed.len()
            invariant
                j <= changed@.len(),
                self.wf(),
                self.populated(),
                self.size == size,
                self.next_id == old(self).next_id,
                self.changed@ == old(self).changed@,
                self.tiles@.len() == tiles0.len(),
                tiles0.len() == size.x * size.y,
                tiles0 == old(self).tiles@,
                forall|jj: int|
                    0 <= jj < changed@.len() ==> spec_in_bounds(#[trigger] changed@[jj], size),
                forall|i: int|
                    0 <= i < tiles0.len() ==> #[trigger] self.tiles@[i] == if spec_touched_by(
                        changed@.take(j as int),
                        size,
                        i,
                    ) {
                        spec_resolved_at(tiles0, size, i)
                    } else {
                        tiles0[i]
                    },
            decreases changed@.len() - j,
        {
            let ghost tiles_mid = self.tiles@;
            let pos = changed[j];
            self.refresh_region(&pos);
            proof {
                let prefix = changed@.take(j as int);
                let prefix1 = changed@.take(j as int + 1);
                assert(prefix1[j as int] == pos);
                assert forall|i: int| 0 <= i < tiles0.len() implies #[trigger] self.tiles@[i]
                    == if spec_touched_by(prefix1, size, i) {
                    spec_resolved_at(tiles0, size, i)
                } else {
                    tiles0[i]
                } by {
                    crate::grid::lemma_pos_of_index_bijective(i, size);
                    if spec_touches(pos, size, i) {
                        assert(forall|ii: int|
                            0 <= ii < tiles0.len() ==> (#[trigger] tiles_mid[ii] == tiles0[ii]
                                || tiles_mid[ii] == spec_resolved_at(tiles0, size, ii)));
                        lemma_retiled_stable(tiles0, tiles_mid, size, spec_pos_of_index(i, size));
                        assert(spec_touches(prefix1[j as int], size, i));
                        assert(spec_touched_by(prefix1, size, i));
                    } else {
                        assert(self.tiles@[i] == tiles_mid[i]);
                        if spec_touched_by(prefix1, size, i) {
                            let jj = choose|jj: int|
                                0 <= jj < prefix1.len() && spec_touches(
                                    #[trigger] prefix1[jj],
                                    size,
                                    i,
                                );
                            assert(jj < j);
                            assert(prefix[jj] == prefix1[jj]);
                            assert(spec_touched_by(prefix, size, i));
                        } else if spec_touched_by(prefix, size, i) {
                            let jj = choose|jj: int|
                                0 <= jj < prefix.len() && spec_touches(
                                    #[trigger] prefix[jj],
                                    size,
                                    i,
                                );
                            assert(prefix1[jj] == prefix[jj]);
                            assert(spec_touched_by(prefix1, size, i));
                        }
                    }
                }
            }
            j = j + 1;
        }
        proof {
            assert(changed@.take(changed@.len() as int) =~= changed@);
        }
    }

    /// Drain the queue of coordinates replaced since the last drain, for the
    /// per-tick recomputation passes.
    pub fn take_changed(&mut self) -> (r: Vec<TilePos>)
        ensures
            r@ == old(self).changed@,
            final(self).changed@ == Seq::<TilePos>::empty(),
            final(self).size == old(self).size,
            final(self).next_id == old(self).next_id,
            final(self).tiles@ == old(self).tiles@,
            old(self).wf() ==> final(self).wf(),
            old(self).populated() ==> final(self).populated(),
    {
        let mut drained: Vec<TilePos> = Vec::new();
        core::mem::swap(&mut drained, &mut self.changed);
        drained
    }

    /// The pass that ends a simulation tick: drain the queue of replaced
    /// coordinates, propagate visibility reveals from each in order, then
    /// recompute the auto-tiling of each and of its orthogonal neighbors.
    pub fn post_update(&mut self)
        requires
            old(self).wf(),
            old(self).populated(),
        ensures
            final(self).wf(),
            final(self).populated(),
            final(self).size == old(self).size,
            final(self).next_id == old(self).next_id,
            final(self).changed@ == Seq::<TilePos>::empty(),
            final(self).tiles@.len() == old(self).tiles@.len(),
            ({
                let revealed = spec_reveal_all(old(self).tiles@, old(self).size, old(self).changed@);
                forall|i: int|
                    0 <= i < old(self).tiles@.len() ==> #[trigger] final(self).tiles@[i]
                        == if spec_touched_by(old(self).changed@, old(self).size, i) {
                        spec_resolved_at(revealed, old(self).size, i)
                    } else {
                        revealed[i]
                    }
            }),
    {
        let changed = self.take_changed();
        self.update_visibility(&changed);
        self.update_directional_tiles(&changed);
    }

    /// Advance every digging countdown by `delta`. A countdown that expires
    /// atomically replaces its tile with a fresh entity of the "ground"
    /// definition at the same coordinate — preserving tilemap ownership,
    /// visible, with no countdown — and queues the coordinate for
    /// recomputation. A missing "ground" definition is a fatal configuration
    /// error, so the registry must hold one.
    pub fn update_tile_digging(&mut self, tile_info: &TileInfo, delta: u64)
        requires
            old(self).wf(),
            old(self).next_id + old(self).tiles@.len() <= u64::MAX,
            tile_info.spec_get("ground"@) is Some,
            spec_texture_ok(tile_info.spec_get("ground"@)->Some_0.tile_texture),
        ensures
            final(self).wf(),
            final(self).size == old(self).size,
            final(self).tiles@.len() == old(self).tiles@.len(),
            old(self).populated() ==> final(self).populated(),
            final(self).next_id == old(self).next_id + spec_completions_before(
                old(self).tiles@,
                delta,
                old(self).tiles@.len() as int,
            ),
            final(self).changed@ == old(self).changed@ + spec_completed_list(
                old(self).tiles@,
                old(self).size,
                delta,
                old(self).tiles@.len() as int,
            ),
            forall|i: int|
                0 <= i < old(self).tiles@.len() ==> spec_dug_ok(
                    old(self).tiles@[i],
                    #[trigger] final(self).tiles@[i],
                    spec_pos_of_index(i, old(self).size),
                    delta,
                    tile_info.spec_get("ground"@)->Some_0,
                    (old(self).next_id + spec_completions_before(old(self).tiles@, delta, i)) as u64,
                ),
    {
        let ghost tiles0 = self.tiles@;
        let ghost size = self.size;
        let ghost ground = tile_info.spec_get("ground"@)->Some_0;
        let ghost id0 = self.next_id;
        let ghost changed0 = self.changed@;
        let n = self.tiles.len();
        let mut i: usize = 0;
        while i < n
            invariant
                i <= n,
                n == tiles0.len(),
                tiles0.len() == size.x * size.y,
                size.x * size.y <= usize::MAX,
                id0 + n <= u64::MAX,
                tiles0 == old(self).tiles@,
                size == old(self).size,
                id0 == old(self).next_id,
                changed0 == old(self).changed@,
                tile_info.spec_get("ground"@) == Some(ground),
                spec_texture_ok(ground.tile_texture),
                self.wf(),
                self.size == size,
                self.tiles@.len() == n,
                self.next_id == id0 + spec_completions_before(tiles0, delta, i as int),
                spec_completions_before(tiles0, delta, i as int) <= i,
                self.changed@ == changed0 + spec_completed_list(tiles0, size, delta, i as int),
                forall|ii: int|
                    0 <= ii < i ==> spec_dug_ok(
                        tiles0[ii],
                        #[trigger] self.tiles@[ii],
                        spec_pos_of_index(ii, size),
                        delta,
                        ground,
                        (id0 + spec_completions_before(tiles0, delta, ii)) as u64,
                    ),
                forall|ii: int| i <= ii < n ==> #[trigger] self.tiles@[ii] == tiles0[ii],
                forall|ii: int|
                    0 <= ii < n ==> ((#[trigger] self.tiles@[ii]) is Some == tiles0[ii] is Some),
            decreases n - i,
        {
            let step: Option<(bool, u64)> = match &self.tiles[i] {
                Some(e) => match &e.digging {
                    Some(d) => Some((delta >= d.duration - d.elapsed, e.bundle.tilemap_id)),
                    None => None,
                },
                None => None,
            };
            match step {
                Some((true, tilemap_id)) => {
                    proof {
                        assert(size.x > 0) by (nonlinear_arith)
                            requires
                                (i as int) < size.x * size.y,
                                size.x >= 0,
                        {
                        }
                        crate::grid::lemma_pos_of_index_bijective(i as int, size);
                    }
                    let w = self.size.x as usize;
                    let pos = TilePos { x: (i % w) as u32, y: (i / w) as u32 };
                    proof {
                        assert(pos == spec_pos_of_index(i as int, size));
                    }
                    let bundle = match tile_info.create_bundle("ground", pos, tilemap_id, true) {
                        Some(b) => b,
                        None => unreached(),
                    };
                    self.set(pos, bundle);
                },
                Some((false, _)) => {
                    match &mut self.tiles[i] {
                        Some(e) => {
                            match &mut e.digging {
                                Some(dig) => {
                                    dig.tick(delta);
                                },
                                None => {},
                            }
                        },
                        None => {},
                    }
                },
                None => {},
            }
            i = i + 1;
        }
    }

    /// Propagate fog-of-war reveals: for each changed coordinate whose tile
    /// is visible and walkable, mark all up-to-8 surrounding cells visible.
    /// Visibility only ever spreads; it is never taken away here.
    pub fn update_visibility(&mut self, changed: &Vec<TilePos>)
        requires
            old(self).wf(),
            old(self).populated(),
            forall|j: int|
                0 <= j < changed@.len() ==> spec_in_bounds(
                    #[trigger] changed@[j],
                    old(self).size,
                ),
        ensures
            final(self).wf(),
            final(self).populated(),
            final(self).size == old(self).size,
            final(self).next_id == old(self).next_id,
            final(self).changed@ == old(self).changed@,
            final(self).tiles@ == spec_reveal_all(old(self).tiles@, old(self).size, changed@),
    {
        let ghost tiles0 = self.tiles@;
        let ghost size = self.size;
        let mut j: usize = 0;
        proof {
            assert(changed@.take(0) =~= Seq::<TilePos>::empty());
        }
        while j < changed.len()
            invariant
                j <= changed@.len(),
                self.wf(),
                self.populated(),
                self.size == size,
                self.next_id == old(self).next_id,
                self.changed@ == old(self).changed@,
                tiles0 == old(self).tiles@,
                tiles0.len() == size.x * size.y,
                forall|jj: int|
                    0 <= jj < changed@.len() ==> spec_in_bounds(#[trigger] changed@[jj], size),
                self.tiles@ == spec_reveal_all(tiles0, size, changed@.take(j as int)),
            decreases changed@.len() - j,
        {
            let ghost tiles_j = self.tiles@;
            let pos = changed[j];
            proof {
                lemma_index_bijective(pos, size);
            }
            let i_pos = position_to_index(&pos, &self.size);
            let spreads: bool = match &self.tiles[i_pos] {
                Some(e) => e.bundle.visible && e.bundle.tile_terrain == TileTerrain::Walkable,
                None => false,
            };
            if spreads {
                let directions: Vec<SquareDirection> = vec![
                    SquareDirection::North,
                    SquareDirection::East,
                    SquareDirection::South,
                    SquareDirection::West,
                    SquareDirection::NorthEast,
                    SquareDirection::SouthEast,
                    SquareDirection::SouthWest,
                    SquareDirection::NorthWest,
                ];
                let mut k: usize = 0;
                while k < directions.len()
                    invariant
                        k <= directions.len(),
                        directions@.len() == 8,
                        directions@[0] == SquareDirection::North,
                        directions@[1] == SquareDirection::East,
                        directions@[2] == SquareDirection::South,
                        directions@[3] == SquareDirection::West,
                        directions@[4] == SquareDirection::NorthEast,
                        directions@[5] == SquareDirection::SouthEast,
                        directions@[6] == SquareDirection::SouthWest,
                        directions@[7] == SquareDirection::NorthWest,
                        self.wf(),
                        self.populated(),
                        self.size == size,
                        self.next_id == old(self).next_id,
                        self.changed@ == old(self).changed@,
                        self.tiles@.len() == tiles_j.len(),
                        tiles_j.len() == size.x * size.y,
                        spec_in_bounds(pos, size),
                        spec_reveals(tiles_j, size, pos),
                        forall|i: int|
                            0 <= i < tiles_j.len() ==> #[trigger] self.tiles@[i] == if exists|kk: int|
                                0 <= kk < k && #[trigger] spec_neighbor_pos(
                                    pos,
                                    directions@[kk],
                                    size,
                                ) == Some(spec_pos_of_index(i, size)) {
                                spec_set_visible(tiles_j[i])
                            } else {
                                tiles_j[i]
                            },
                    decreases directions.len() - k,
                {
                    let ghost tiles_k = self.tiles@;
                    match neighbor_pos(&pos, directions[k], &self.size) {
                        Some(np) => {
                            proof {
                                lemma_index_bijective(np, size);
                            }
                            let i_np = position_to_index(&np, &self.size);
                            match &mut self.tiles[i_np] {
                                Some(e) => {
                                    e.bundle.visible = true;
                                },
                                None => {},
                            }
                            proof {
                                assert forall|i: int| 0 <= i < tiles_j.len() implies #[trigger] self.tiles@[i]
                                    == if exists|kk: int|
                                    0 <= kk < k + 1 && #[trigger] spec_neighbor_pos(
                                        pos,
                                        directions@[kk],
                                        size,
                                    ) == Some(spec_pos_of_index(i, size)) {
                                    spec_set_visible(tiles_j[i])
                                } else {
                                    tiles_j[i]
                                } by {
                                    crate::grid::lemma_pos_of_index_bijective(i, size);
                                    if i == spec_index(np, size) {
                                        assert(spec_neighbor_pos(pos, directions@[k as int], size)
                                            == Some(spec_pos_of_index(i, size)));
                                        assert(self.tiles@[i] == spec_set_visible(tiles_j[i]));
                                    }
                                }
                            }
                        },
                        None => {
                            proof {
                                assert forall|i: int| 0 <= i < tiles_j.len() implies #[trigger] self.tiles@[i]
                                    == if exists|kk: int|
                                    0 <= kk < k + 1 && #[trigger] spec_neighbor_pos(
                                        pos,
                                        directions@[kk],
                                        size,
                                    ) == Some(spec_pos_of_index(i, size)) {
                                    spec_set_visible(tiles_j[i])
                                } else {
                                    tiles_j[i]
                                } by {}
                            }
                        },
                    }
                    k = k + 1;
                }
                proof {
                    assert forall|i: int| 0 <= i < tiles_j.len() implies #[trigger] self.tiles@[i]
                        == spec_reveal_from(tiles_j, size, pos)[i] by {
                        if spec_adjacent(pos, size, i) {
                            let d = choose|d: SquareDirection| #[trigger]
                                spec_neighbor_pos(pos, d, size) == Some(spec_pos_of_index(i, size));
                            let kk: int = match d {
                                SquareDirection::North => 0,
                                SquareDirection::East => 1,
                                SquareDirection::South => 2,
                                SquareDirection::West => 3,
                                SquareDirection::NorthEast => 4,
                                SquareDirection::SouthEast => 5,
                                SquareDirection::SouthWest => 6,
                                SquareDirection::NorthWest => 7,
                            };
                            assert(spec_neighbor_pos(pos, directions@[kk], size) == Some(
                                spec_pos_of_index(i, size),
                            ));
                        }
                    }
                    assert(self.tiles@ =~= spec_reveal_from(tiles_j, size, pos));
                }
            } else {
                proof {
                    assert(!spec_reveals(tiles_j, size, pos));
                    assert(self.tiles@ == spec_reveal_from(tiles_j, size, pos));
                }
            }
            proof {
                assert(changed@.take(j as int + 1).drop_last() =~= changed@.take(j as int));
                assert(changed@.take(j as int + 1).last() == pos);
            }
            j = j + 1;
        }
        proof {
            assert(changed@.take(changed@.len() as int) =~= changed@);
        }
    }
}

/// The cell with its visibility flag raised; an empty cell stays empty.
pub open spec fn spec_set_visible(t: Option<TileEntity>) -> Option<TileEntity> {
    match t {
        Option::Some(e) => Some(
            TileEntity { bundle: GameTileBundle { visible: true, ..e.bundle }, ..e },
        ),
        Option::None => Option::None,
    }
}

/// Whether the tile at `pos` spreads its visibility: it is live, marked
/// visible, and walkable ground.
pub open spec fn spec_reveals(tiles: Seq<Option<TileEntity>>, size: TilemapSize, pos: TilePos) -> bool {
    spec_in_bounds(pos, size) && match tiles[spec_index(pos, size)] {
        Option::Some(e) => e.bundle.visible && e.bundle.tile_terrain is Walkable,
        Option::None => false,
    }
}

/// Whether index `i` holds one of the up-to-8 cells surrounding `pos`.
pub open spec fn spec_adjacent(pos: TilePos, size: TilemapSize, i: int) -> bool {
    exists|d: SquareDirection| #[trigger]
        spec_neighbor_pos(pos, d, size) == Some(spec_pos_of_index(i, size))
}

/// One fog-of-war reveal: when the tile at `pos` spreads visibility, every
/// surrounding in-bounds cell is marked visible; otherwise nothing changes.
pub open spec fn spec_reveal_from(tiles: Seq<Option<TileEntity>>, size: TilemapSize, pos: TilePos) -> Seq<
    Option<TileEntity>,
> {
    if spec_reveals(tiles, size, pos) {
        Seq::new(
            tiles.len(),
            |i: int|
                if spec_adjacent(pos, size, i) {
                    spec_set_visible(tiles[i])
                } else {
                    tiles[i]
                },
        )
    } else {
        tiles
    }
}

/// Reveals applied for each changed coordinate in order.
pub open spec fn spec_reveal_all(tiles: Seq<Option<TileEntity>>, size: TilemapSize, changed: Seq<TilePos>) -> Seq<
    Option<TileEntity>,
>
    decreases changed.len(),
{
    if changed.len() == 0 {
        tiles
    } else {
        spec_reveal_from(spec_reveal_all(tiles, size, changed.drop_last()), size, changed.last())
    }
}

/// Law: a tile whose type differs from (or lacks) all four orthogonal
/// neighbors masks to 15 and displays offset 1; one identical to all four
/// masks to 0 and displays offset 0.
pub proof fn lemma_mask_extremes(tiles: Seq<Option<TileEntity>>, size: TilemapSize, pos: TilePos)
    ensures
        (forall|d: SquareDirection|
            d.is_orthogonal() ==> #[trigger] spec_differs(tiles, size, pos, d)) ==> spec_mask(
            tiles,
            size,
            pos,
        ) == 15 && spec_offset(spec_mask(tiles, size, pos)) == 1,
        (forall|d: SquareDirection|
            d.is_orthogonal() ==> !(#[trigger] spec_differs(tiles, size, pos, d))) ==> spec_mask(
            tiles,
            size,
            pos,
        ) == 0 && spec_offset(spec_mask(tiles, size, pos)) == 0,
{
    assert(SquareDirection::North.is_orthogonal());
    assert(SquareDirection::East.is_orthogonal());
    assert(SquareDirection::South.is_orthogonal());
    assert(SquareDirection::West.is_orthogonal());
}

/// Whether `delta` more elapsed time completes the digging countdown of a
/// cell.
pub open spec fn spec_dig_completes(t: Option<TileEntity>, delta: u64) -> bool {
    &&& t matches Some(e)
    &&& e.digging matches Some(d)
    &&& d.elapsed + delta >= d.duration
}

/// How many cells among the first `i` complete their digging this tick.
pub open spec fn spec_completions_before(tiles: Seq<Option<TileEntity>>, delta: u64, i: int) -> int
    decreases i,
{
    if i <= 0 {
        0
    } else {
        spec_completions_before(tiles, delta, i - 1) + if spec_dig_completes(tiles[i - 1], delta) {
            1int
        } else {
            0int
        }
    }
}

/// The coordinates, in store order, of the cells among the first `i` that
/// complete their digging this tick.
pub open spec fn spec_completed_list(tiles: Seq<Option<TileEntity>>, size: TilemapSize, delta: u64, i: int) -> Seq<
    TilePos,
>
    decreases i,
{
    if i <= 0 {
        Seq::empty()
    } else {
        spec_completed_list(tiles, size, delta, i - 1) + if spec_dig_completes(
            tiles[i - 1],
            delta,
        ) {
            seq![spec_pos_of_index(i - 1, size)]
        } else {
            Seq::empty()
        }
    }
}

/// What one digging tick of `delta` makes of a single cell: a cell without a
/// countdown is untouched; a countdown short of its duration accumulates
/// `delta`; an expiring countdown replaces the cell with a fresh, visible
/// entity of the "ground" definition at the same coordinate, under the same
/// tilemap.
pub open spec fn spec_dug_ok(old_t: Option<TileEntity>, new_t: Option<TileEntity>, pos: TilePos, delta: u64, ground: TileData, expect_id: u64) -> bool {
    match old_t {
        Option::None => new_t == old_t,
        Option::Some(e) => match e.digging {
            Option::None => new_t == old_t,
            Option::Some(d) => if d.elapsed + delta >= d.duration {
                &&& new_t matches Some(n)
                &&& n.id == expect_id
                &&& n.digging is None
                &&& n.bundle.tile_type@ == "ground"@
                &&& n.bundle.position == pos
                &&& n.bundle.texture_index == spec_base_index(ground.tile_texture)
                &&& n.bundle.tilemap_id == e.bundle.tilemap_id
                &&& n.bundle.visible == true
                &&& n.bundle.tile_texture == ground.tile_texture
                &&& n.bundle.tile_terrain == ground.tile_type
            } else {
                &&& new_t matches Some(n)
                &&& n.id == e.id
                &&& n.bundle == e.bundle
                &&& n.digging == Some(
                    TileDigging { elapsed: (d.elapsed + delta) as u64, duration: d.duration },
                )
            },
        },
    }
}

/// Law: a reveal is one-directional. A coordinate that does not spread
/// visibility — invisible, not walkable, or empty — changes nothing at all,
/// and no reveal ever takes visibility away from a cell that has it.
pub proof fn lemma_reveal_one_directional(tiles: Seq<Option<TileEntity>>, size: TilemapSize, pos: TilePos)
    ensures
        !spec_reveals(tiles, size, pos) ==> spec_reveal_from(tiles, size, pos) == tiles,
        forall|i: int|
            0 <= i < tiles.len() && (#[trigger] tiles[i]) is Some
                && tiles[i]->Some_0.bundle.visible ==> spec_reveal_from(tiles, size, pos)[i] is Some
                && spec_reveal_from(tiles, size, pos)[i]->Some_0.bundle.visible,
{
}

/// Law: when the tile at `pos` is visible and walkable, the reveal marks
/// the cell one step in every direction — all up-to-8 surrounding in-bounds
/// cells — visible, and leaves every cell elsewhere untouched.
pub proof fn lemma_reveal_marks_neighbors(tiles: Seq<Option<TileEntity>>, size: TilemapSize, pos: TilePos, d: SquareDirection)
    requires
        tiles.len() == size.x * size.y,
        spec_reveals(tiles, size, pos),
        spec_neighbor_pos(pos, d, size) is Some,
    ensures
        spec_reveal_from(tiles, size, pos)[spec_index(spec_neighbor_pos(pos, d, size)->Some_0, size)]
            == spec_set_visible(tiles[spec_index(spec_neighbor_pos(pos, d, size)->Some_0, size)]),
        forall|i: int|
            0 <= i < tiles.len() && !spec_adjacent(pos, size, i)
                ==> #[trigger] spec_reveal_from(tiles, size, pos)[i] == tiles[i],
{
    let np = spec_neighbor_pos(pos, d, size)->Some_0;
    lemma_index_bijective(np, size);
    assert(spec_neighbor_pos(pos, d, size) == Some(
        spec_pos_of_index(spec_index(np, size), size),
    ));
    assert(spec_adjacent(pos, size, spec_index(np, size)));
}

/// Whether a coordinate lies in the 3-by-3 starting clearing at the map
/// center.
pub open spec fn spec_in_center(size: TilemapSize, pos: TilePos) -> bool {
    &&& size.x / 2 - 1 <= pos.x <= size.x / 2 + 1
    &&& size.y / 2 - 1 <= pos.y <= size.y / 2 + 1
}

/// What map generation owes each cell: a live, countdown-free entity of the
/// cell's own coordinate under the generated tilemap — a visible "ground"
/// tile in the central clearing, an invisible "ice" tile everywhere else.
pub open spec fn spec_generated_ok(t: Option<TileEntity>, pos: TilePos, center: bool, ice: TileData, ground: TileData, tilemap_id: u64) -> bool {
    &&& t matches Some(e)
    &&& e.digging is None
    &&& e.bundle.position == pos
    &&& e.bundle.tilemap_id == tilemap_id
    &&& if center {
        &&& e.bundle.tile_type@ == "ground"@
        &&& e.bundle.visible == true
        &&& e.bundle.tile_terrain == ground.tile_type
        &&& e.bundle.tile_texture == ground.tile_texture
        &&& e.bundle.texture_index == spec_base_index(ground.tile_texture)
    } else {
        &&& e.bundle.tile_type@ == "ice"@
        &&& e.bundle.visible == false
        &&& e.bundle.tile_terrain == ice.tile_type
        &&& e.bundle.tile_texture == ice.tile_texture
        &&& e.bundle.texture_index == spec_base_index(ice.tile_texture)
    }
}

proof fn lemma_push_preserves_contains(s: Seq<TilePos>, p: TilePos)
    ensures
        forall|q: TilePos| s.contains(q) ==> #[trigger] s.push(p).contains(q),
        s.push(p).contains(p),
{
    assert forall|q: TilePos| s.contains(q) implies #[trigger] s.push(p).contains(q) by {
        let k = choose|k: int| 0 <= k < s.len() && s[k] == q;
        assert(s.push(p)[k] == q);
    }
    assert(s.push(p)[s.len() as int] == p);
}

/// Generate the grid: every cell stocked with the invisible "ice"
/// definition, then a 3-by-3 clearing of visible "ground" at the center.
/// Both definitions must be registered — their absence is a fatal
/// configuration error.
pub fn create_map(settings: &MapSettings, tile_info: &TileInfo, tilemap_id: u64) -> (w: TileWorld)
    requires
        settings.size.0 >= 3,
        settings.size.1 >= 3,
        settings.size.0 * settings.size.1 <= usize::MAX,
        tile_info.spec_get("ice"@) is Some,
        spec_texture_ok(tile_info.spec_get("ice"@)->Some_0.tile_texture),
        tile_info.spec_get("ground"@) is Some,
        spec_texture_ok(tile_info.spec_get("ground"@)->Some_0.tile_texture),
    ensures
        w.wf(),
        w.populated(),
        w.size == (TilemapSize { x: settings.size.0, y: settings.size.1 }),
        forall|i: int|
            0 <= i < w.tiles@.len() ==> spec_generated_ok(
                #[trigger] w.tiles@[i],
                spec_pos_of_index(i, w.size),
                spec_in_center(w.size, spec_pos_of_index(i, w.size)),
                tile_info.spec_get("ice"@)->Some_0,
                tile_info.spec_get("ground"@)->Some_0,
                tilemap_id,
            ),
        forall|pos: TilePos| spec_in_bounds(pos, w.size) ==> w.changed@.contains(pos),
{
    let size = TilemapSize { x: settings.size.0, y: settings.size.1 };
    let ghost ice = tile_info.spec_get("ice"@)->Some_0;
    let ghost ground = tile_info.spec_get("ground"@)->Some_0;
    proof {
        assert(size.x * size.y <= 0xffff_fffe_0000_0001) by (nonlinear_arith)
            requires
                size.x <= 0xffff_ffff,
                size.y <= 0xffff_ffff,
        {
        }
    }
    let mut world = TileWorld::empty(size);
    let mut x: u32 = 0;
    while x < size.x
        invariant
            x <= size.x,
            world.wf(),
            world.size == size,
            world.tiles@.len() == size.x * size.y,
            size.x * size.y <= 0xffff_fffe_0000_0001,
            world.next_id == x * size.y,
            tile_info.spec_get("ice"@) == Some(ice),
            spec_texture_ok(ice.tile_texture),
            forall|i: int|
                0 <= i < world.tiles@.len() ==> if spec_pos_of_index(i, size).x < x {
                    spec_generated_ok(
                        #[trigger] world.tiles@[i],
                        spec_pos_of_index(i, size),
                        false,
                        ice,
                        ground,
                        tilemap_id,
                    )
                } else {
                    world.tiles@[i] is None
                },
            forall|pos: TilePos|
                spec_in_bounds(pos, size) && pos.x < x ==> world.changed@.contains(pos),
        decreases size.x - x,
    {
        let mut y: u32 = 0;
        while y < size.y
            invariant
                x < size.x,
                y <= size.y,
                world.wf(),
                world.size == size,
                world.tiles@.len() == size.x * size.y,
                size.x * size.y <= 0xffff_fffe_0000_0001,
                world.next_id == x * size.y + y,
                tile_info.spec_get("ice"@) == Some(ice),
                spec_texture_ok(ice.tile_texture),
                forall|i: int|
                    0 <= i < world.tiles@.len() ==> if spec_pos_of_index(i, size).x < x || (
                    spec_pos_of_index(i, size).x == x && spec_pos_of_index(i, size).y < y) {
                        spec_generated_ok(
                            #[trigger] world.tiles@[i],
                            spec_pos_of_index(i, size),
                            false,
                            ice,
                            ground,
                            tilemap_id,
                        )
                    } else {
                        world.tiles@[i] is None
                    },
                forall|pos: TilePos|
                    spec_in_bounds(pos, size) && (pos.x < x || (pos.x == x && pos.y < y))
                        ==> world.changed@.contains(pos),
            decreases size.y - y,
        {
            let pos = TilePos { x, y };
            proof {
                lemma_index_bijective(pos, size);
                assert(x * size.y + y < size.x * size.y) by (nonlinear_arith)
                    requires
                        x < size.x,
                        y < size.y,
                        size.y >= 0,
                        x >= 0,
                        y >= 0,
                {
                }
                lemma_push_preserves_contains(world.changed@, pos);
            }
            let bundle = match tile_info.create_bundle("ice", pos, tilemap_id, false) {
                Some(b) => b,
                None => unreached(),
            };
            world.set(pos, bundle);
            proof {
                assert forall|i: int|
                    0 <= i < world.tiles@.len() && i != spec_index(pos, size) implies
                    spec_pos_of_index(i, size) != pos by {
                    crate::grid::lemma_pos_of_index_bijective(i, size);
                }
            }
            y = y + 1;
        }
        proof {
            assert((x + 1) * size.y == x * size.y + size.y) by (nonlinear_arith);
            assert forall|i: int| 0 <= i < world.tiles@.len() implies (spec_pos_of_index(i, size).x
                < x + 1) == (spec_pos_of_index(i, size).x < x || (spec_pos_of_index(i, size).x == x
                && spec_pos_of_index(i, size).y < size.y)) by {
                crate::grid::lemma_pos_of_index_bijective(i, size);
            }
        }
        x = x + 1;
    }
    proof {
        assert forall|i: int| 0 <= i < world.tiles@.len() implies spec_pos_of_index(i, size).x
            < size.x by {
            crate::grid::lemma_pos_of_index_bijective(i, size);
        }
    }
    let cx = size.x / 2;
    let cy = size.y / 2;
    let mut gx: u32 = cx - 1;
    while gx < cx + 2
        invariant
            cx == size.x / 2,
            cy == size.y / 2,
            3 <= size.x,
            3 <= size.y,
            cx - 1 <= gx <= cx + 2,
            world.wf(),
            world.size == size,
            world.tiles@.len() == size.x * size.y,
            size.x * size.y <= 0xffff_fffe_0000_0001,
            world.next_id <= size.x * size.y + (gx - (cx - 1)) * 3,
            tile_info.spec_get("ice"@) == Some(ice),
            tile_info.spec_get("ground"@) == Some(ground),
            spec_texture_ok(ice.tile_texture),
            spec_texture_ok(ground.tile_texture),
            forall|i: int|
                0 <= i < world.tiles@.len() ==> spec_generated_ok(
                    #[trigger] world.tiles@[i],
                    spec_pos_of_index(i, size),
                    spec_in_center(size, spec_pos_of_index(i, size)) && spec_pos_of_index(
                        i,
                        size,
                    ).x < gx,
                    ice,
                    ground,
                    tilemap_id,
                ),
            forall|pos: TilePos| spec_in_bounds(pos, size) ==> world.changed@.contains(pos),
        decreases cx + 2 - gx,
    {
        let mut gy: u32 = cy - 1;
        while gy < cy + 2
            invariant
                cx == size.x / 2,
                cy == size.y / 2,
                3 <= size.x,
                3 <= size.y,
                cx - 1 <= gx < cx + 2,
                cy - 1 <= gy <= cy + 2,
                world.wf(),
                world.size == size,
                world.tiles@.len() == size.x * size.y,
                size.x * size.y <= 0xffff_fffe_0000_0001,
                world.next_id <= size.x * size.y + (gx - (cx - 1)) * 3 + (gy - (cy - 1)),
                tile_info.spec_get("ice"@) == Some(ice),
                tile_info.spec_get("ground"@) == Some(ground),
                spec_texture_ok(ice.tile_texture),
                spec_texture_ok(ground.tile_texture),
                forall|i: int|
                    0 <= i < world.tiles@.len() ==> spec_generated_ok(
                        #[trigger] world.tiles@[i],
                        spec_pos_of_index(i, size),
                        spec_in_center(size, spec_pos_of_index(i, size)) && (spec_pos_of_index(
                            i,
                            size,
                        ).x < gx || (spec_pos_of_index(i, size).x == gx && spec_pos_of_index(
                            i,
                            size,
                        ).y < gy)),
                        ice,
                        ground,
                        tilemap_id,
                    ),
                forall|pos: TilePos| spec_in_bounds(pos, size) ==> world.changed@.contains(pos),
            decreases cy + 2 - gy,
        {
            let pos = TilePos { x: gx, y: gy };
            proof {
                assert(gx < size.x && gy < size.y);
                lemma_index_bijective(pos, size);
                lemma_push_preserves_contains(world.changed@, pos);
            }
            let bundle = match tile_info.create_bundle("ground", pos, tilemap_id, true) {
                Some(b) => b,
                None => unreached(),
            };
            world.set(pos, bundle);
            proof {
                assert forall|i: int|
                    0 <= i < world.tiles@.len() && i != spec_index(pos, size) implies
                    spec_pos_of_index(i, size) != pos by {
                    crate::grid::lemma_pos_of_index_bijective(i, size);
                }
                assert(spec_in_center(size, pos));
            }
            gy = gy + 1;
        }
        proof {
            assert((gx + 1 - (cx - 1)) * 3 == (gx - (cx - 1)) * 3 + 3) by (nonlinear_arith);
            assert forall|i: int| 0 <= i < world.tiles@.len() implies (spec_in_center(
                size,
                spec_pos_of_index(i, size),
            ) && spec_pos_of_index(i, size).x < gx + 1) == (spec_in_center(
                size,
                spec_pos_of_index(i, size),
            ) && (spec_pos_of_index(i, size).x < gx || (spec_pos_of_index(i, size).x == gx
                && spec_pos_of_index(i, size).y < cy + 2))) by {
                crate::grid::lemma_pos_of_index_bijective(i, size);
            }
        }
        gx = gx + 1;
    }
    proof {
        assert forall|i: int| 0 <= i < world.tiles@.len() implies spec_generated_ok(
            #[trigger] world.tiles@[i],
            spec_pos_of_index(i, size),
            spec_in_center(size, spec_pos_of_index(i, size)),
            ice,
            ground,
            tilemap_id,
        ) by {
            crate::grid::lemma_pos_of_index_bijective(i, size);
        }
    }
    world
}

/// Law: a replacement's identity is fresh — it differs from the identity of
/// every tile live anywhere in the store before the swap, so no retained
/// pre-swap identity can ever name the new entity.
pub proof fn lemma_replacement_identity_fresh(before: TileWorld, after: TileWorld, pos: TilePos, bundle: GameTileBundle)
    requires
        before.wf(),
        spec_in_bounds(pos, before.size),
        after.size == before.size,
        after.tiles@ == before.tiles@.update(
            spec_index(pos, before.size),
            Some(TileEntity { id: before.next_id, bundle, digging: None }),
        ),
    ensures
        after.spec_tile_at(pos) matches Some(e) && forall|q: TilePos|
            spec_in_bounds(q, before.size) && before.spec_tile_at(q) is Some
                ==> (#[trigger] before.spec_tile_at(q))->Some_0.id != e.id,
{
    lemma_index_bijective(pos, before.size);
    let e = after.spec_tile_at(pos)->Some_0;
    assert forall|q: TilePos|
        spec_in_bounds(q, before.size) && before.spec_tile_at(q) is Some implies (
    #[trigger] before.spec_tile_at(q))->Some_0.id != e.id by {
        lemma_index_bijective(q, before.size);
    }
}

} // verus!
