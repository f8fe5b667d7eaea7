//! A tile-and-sprite picture compositor modeled on classic video hardware,
//! with the helpers that games use to write into it.

pub mod constants;
pub mod color;
pub mod tile;
pub mod layer;
pub mod oam;
pub mod engine;
pub mod fc;
pub mod prng;
pub mod random;
pub mod collision;
pub mod playfield;
pub mod output;
pub mod image_tiles;
pub mod sprite;
pub mod fixed;

pub use constants::{
    BG_HEIGHT, BG_SIZE, BG_WIDTH, BYTES_PER_TILE_PLANE, NUM_BG_LAYERS, NUM_BG_TILES, NUM_OAM_ENTRIES,
    NUM_OBJECT_PRIORITY_LEVELS, NUM_PALETTE_ENTRIES, NUM_PLANES, NUM_SCREEN_PIXELS, NUM_TILES,
    OBJECTS_PER_LINE, SCREEN_HEIGHT, SCREEN_WIDTH, SUBPALETTE_SIZE, TILE_HEIGHT, TILE_INDEX_BITS,
    TILE_PALETTE_SIZE, TILE_SIZE, TILE_WIDTH,
};
pub use color::{Palette, PaletteIndex, RawPixel, Rgb, Rotation, Subpalette};
pub use tile::{Tile, TileAttributes, TileIndex, Tileset};
pub use layer::BgLayer;
pub use oam::{OamEntry, OamIndex, OamTable};
pub use engine::{LayerHit, LayerType, Vfc};
pub use prng::{Prng, Prng16, Prng32};
