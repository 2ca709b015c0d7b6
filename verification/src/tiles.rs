//! The tile registry: the static catalogue that maps a tile-definition name
//! to its terrain kind and texture rule, and the bundle a cell is stocked
//! with when a definition is instantiated at a coordinate.

use vstd::prelude::*;

use crate::grid::TilePos;

verus! {

/// The auto-tiling grouping key: a name-valued tag. Two tiles of the same
/// type read as visually contiguous.
#[derive(Clone, Debug)]
pub struct TileType(pub String);

impl View for TileType {
    type V = Seq<char>;

    open spec fn view(&self) -> Seq<char> {
        self.0@
    }
}

impl TileType {
    /// Whether two tiles belong to the same auto-tiling group.
    pub fn same_type(&self, other: &TileType) -> (r: bool)
        ensures
            r == (self@ == other@),
    {
        self.0 == other.0
    }
}

/// Traversal rule of a tile. `hardness` is fixed-point, in
/// [`crate::TIME_SCALE`] sub-units per unit.
#[derive(Clone, Copy, Debug, PartialEq, Eq, Structural)]
pub enum TileTerrain {
    Walkable,
    Diggable { level: u32, hardness: u32 },
    Impassable,
}

/// Texture rule of a tile: a fixed atlas index, or a directional base index
/// to which the auto-tiling offset is added.
#[derive(Clone, Copy, Debug, PartialEq, Eq, Structural)]
pub enum TileTexture {
    Single(u32),
    Directional(u32),
}

/// The atlas index a texture rule starts from.
pub open spec fn spec_base_index(texture: TileTexture) -> u32 {
    match texture {
        TileTexture::Single(i) => i,
        TileTexture::Directional(i) => i,
    }
}

/// One registry entry: terrain kind plus texture rule.
#[derive(Clone, Copy, Debug, PartialEq, Eq, Structural)]
pub struct TileData {
    pub tile_type: TileTerrain,
    pub tile_texture: TileTexture,
}

/// A named registry entry.
#[derive(Clone, Debug)]
pub struct TileInfoEntry {
    pub name: String,
    pub data: TileData,
}

/// The tile-definition registry, built once from loaded definitions and
/// read-only afterwards. Lookup returns the most recently inserted entry of
/// a name, so inserting again replaces.
#[derive(Clone, Debug)]
pub struct TileInfo {
    pub tiles: Vec<TileInfoEntry>,
}

/// First entry of `entries` whose name is `name`, if any.
pub open spec fn spec_get_in(entries: Seq<TileInfoEntry>, name: Seq<char>) -> Option<TileData>
    decreases entries.len(),
{
    if entries.len() == 0 {
        None
    } else if entries[0].name@ == name {
        Some(entries[0].data)
    } else {
        spec_get_in(entries.skip(1), name)
    }
}

/// The live content a cell is stocked with: grouping key, grid placement,
/// resolved atlas index, owning tilemap, visibility, and the terrain and
/// texture rules it was instantiated from.
#[derive(Clone, Debug)]
pub struct GameTileBundle {
    pub tile_type: TileType,
    pub position: TilePos,
    pub texture_index: u32,
    pub tilemap_id: u64,
    pub visible: bool,
    pub tile_texture: TileTexture,
    pub tile_terrain: TileTerrain,
}

impl TileInfo {
    /// The definition registered under `name`, if any.
    pub open spec fn spec_get(&self, name: Seq<char>) -> Option<TileData> {
        spec_get_in(self.tiles@, name)
    }

    pub open spec fn contains_name(&self, name: Seq<char>) -> bool {
        self.spec_get(name) is Some
    }

    /// An empty registry.
    pub fn new() -> (r: TileInfo)
        ensures
            forall|n: Seq<char>| r.spec_get(n) is None,
    {
        TileInfo { tiles: Vec::new() }
    }

    /// Register a definition; a later entry of the same name replaces an
    /// earlier one for all lookups.
    pub fn insert(&mut self, name: String, data: TileData)
        ensures
            forall|n: Seq<char>|
                final(self).spec_get(n) == if n == name@ {
                    Some(data)
                } else {
                    old(self).spec_get(n)
                },
    {
        let ghost before = self.tiles@;
        let ghost name_view = name@;
        self.tiles.insert(0, TileInfoEntry { name, data });
        proof {
            assert(self.tiles@.skip(1) =~= before);
            assert forall|n: Seq<char>|
                self.spec_get(n) == if n == name_view {
                    Some(data)
                } else {
                    spec_get_in(before, n)
                } by {
                assert(self.tiles@[0].name@ == name_view);
            }
        }
    }

    /// Look a definition up by name.
    pub fn get(&self, name: &str) -> (r: Option<TileData>)
        ensures
            r == self.spec_get(name@),
    {
        let owned: String = name.to_owned();
        let mut i: usize = 0;
        proof {
            assert(self.tiles@.skip(0) =~= self.tiles@);
        }
        while i < self.tiles.len()
            invariant
                i <= self.tiles.len(),
                owned@ == name@,
                spec_get_in(self.tiles@.skip(i as int), name@) == self.spec_get(name@),
            decreases self.tiles.len() - i,
        {
            proof {
                assert(self.tiles@.skip(i as int)[0] == self.tiles@[i as int]);
                assert(self.tiles@.skip(i as int).skip(1) =~= self.tiles@.skip(i as int + 1));
            }
            if self.tiles[i].name == owned {
                return Some(self.tiles[i].data);
            }
            i = i + 1;
        }
        proof {
            assert(self.tiles@.skip(self.tiles@.len() as int) =~= Seq::<TileInfoEntry>::empty());
        }
        None
    }

    /// Instantiate the definition registered under `name` at a coordinate:
    /// the bundle carries the name as its grouping key, the placement, the
    /// definition's terrain and texture rules, and the texture rule's base
    /// index as the initially displayed index.
    pub fn create_bundle(&self, name: &str, position: TilePos, tilemap_id: u64, visible: bool) -> (r: Option<
        GameTileBundle,
    >)
        ensures
            match self.spec_get(name@) {
                Option::None => r is None,
                Option::Some(data) => {
                    &&& r matches Some(b)
                    &&& b.tile_type@ == name@
                    &&& b.position == position
                    &&& b.texture_index == spec_base_index(data.tile_texture)
                    &&& b.tilemap_id == tilemap_id
                    &&& b.visible == visible
                    &&& b.tile_texture == data.tile_texture
                    &&& b.tile_terrain == data.tile_type
                },
            },
    {
        let data = match self.get(name) {
            Some(d) => d,
            None => {
                return None;
            },
        };
        let index = match data.tile_texture {
            TileTexture::Single(ind) => ind,
            TileTexture::Directional(ind) => ind,
        };
        Some(
            GameTileBundle {
                tile_type: TileType(name.to_owned()),
                position,
                texture_index: index,
                tilemap_id,
                visible,
                tile_texture: data.tile_texture,
                tile_terrain: data.tile_type,
            },
        )
    }
}

} // verus!
