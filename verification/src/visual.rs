//! Visual components that carry no floating point state: tileset choices
//! and tilemaps.

use vstd::prelude::*;
use crate::tex_key::AssetNameMap;
use crate::tex_key::TextureKey;
use crate::tex_key::get_asset_by_name;

verus! {

/// The width and height of tilemaps, in tiles.
pub const TILEMAP_SIZE: usize = 16;

/// An enum of tilesets.  Named this way to avoid collisions with the
/// atlas `Tileset`.
#[derive(Clone, Copy, Debug, PartialEq, Eq, Structural)]
pub enum TilesetEnum {
    /// Tiles: 0 dirt, 1 grass, 2 water.
    Grass,
}

impl TilesetEnum {
    /// The texture key of this tileset's packed image, if the asset is
    /// registered.
    pub fn convert_to_tex_key(&self, names: &AssetNameMap) -> (r: Option<TextureKey>)
        ensures
            r == names.spec_lookup("TilesetGrass"@),
    {
        match self {
            TilesetEnum::Grass => get_asset_by_name(names, "TilesetGrass"),
        }
    }
}

/// A tilemap: a `TILEMAP_SIZE` by `TILEMAP_SIZE` grid of tile indices
/// into a tileset, drawn at a position scaled by the chunk size so
/// neighbouring tilemaps sit flush.
pub struct Tilemap {
    pub tileset: TilesetEnum,
    /// One `u8` per tile, row-major, 16 by 16; the meaning of each value
    /// is defined by the tileset.
    pub data: [u8; 256],
}

} // verus!
