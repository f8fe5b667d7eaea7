use vstd::prelude::*;

use crate::color::{colorize, PaletteIndex, RawPixel};
use crate::constants::{BG_WIDTH, NUM_BG_TILES, TILE_SIZE};
use crate::tile::{
    lemma_field_bounds, lemma_raw_pixel_bound, priority_bits, raw_pixel, subpalette_bits, TileAttributes, TileData,
    TileIndex, Tileset,
};

verus! {

broadcast use vstd::array::group_array_axioms;

/// `a - b` on 8-bit values, wrapping at 256.
pub open spec fn wrap_sub(a: u8, b: u8) -> u8 {
    if a >= b {
        (a - b) as u8
    } else {
        (a + 256 - b) as u8
    }
}

pub fn wrapping_offset(a: u8, b: u8) -> (r: u8)
    ensures
        r == wrap_sub(a, b),
        r as int == (a - b) % 256,
{
    a.wrapping_sub(b)
}

/// The grid cell at tile coordinates (`tile_x`, `tile_y`):
/// `(tile_x + tile_y * 32) mod 1024`.
pub open spec fn cell_address(tile_x: int, tile_y: int) -> int {
    (tile_x + tile_y * 32) % 1024
}

/// The grid cell of tile coordinates (`tile_x`, `tile_y`) with each axis
/// wrapped at 32; for coordinates below 32 it is the cell address.
pub open spec fn grid_index(tile_x: int, tile_y: int) -> int {
    (tile_x % 32) + (tile_y % 32) * 32
}

/// A palette index and the priority (0 to 3) that go with it.
pub struct Hit {
    pub index: u8,
    pub priority: u8,
}

/// What the cell under layer-relative pixel (`rx`, `ry`) shows there: `None`
/// where the tile's raw value is 0.
pub open spec fn cell_hit(layer: BgLayer, data: TileData, rx: u8, ry: u8) -> Option<Hit> {
    let cell = cell_address(rx as int / 8, ry as int / 8);
    let t = layer.tiles@[cell];
    let a = layer.attributes@[cell].bits();
    let raw = raw_pixel(data, t.0, a, rx % 8, ry % 8);
    if raw == 0 {
        None
    } else {
        Some(Hit { index: colorize(subpalette_bits(a), raw), priority: priority_bits(a) })
    }
}

/// What `layer` shows at screen pixel (`sx`, `sy`): nothing when hidden,
/// else the cell hit at the pixel minus the scroll offset, wrapping at 256.
#[verifier::opaque]
pub open spec fn layer_hit(layer: BgLayer, data: TileData, sx: u8, sy: u8) -> Option<Hit> {
    if layer.hidden {
        None
    } else {
        cell_hit(layer, data, wrap_sub(sx, layer.x), wrap_sub(sy, layer.y))
    }
}

/// The grid cell under screen pixel (`sx`, `sy`).
pub open spec fn cell_under(layer: BgLayer, sx: u8, sy: u8) -> int {
    cell_address(wrap_sub(sx, layer.x) as int / 8, wrap_sub(sy, layer.y) as int / 8)
}

/// The raw value of the tile pixel under screen pixel (`sx`, `sy`).
pub open spec fn layer_raw(layer: BgLayer, data: TileData, sx: u8, sy: u8) -> u8 {
    let cell = cell_under(layer, sx, sy);
    raw_pixel(
        data,
        layer.tiles@[cell].0,
        layer.attributes@[cell].bits(),
        wrap_sub(sx, layer.x) % 8,
        wrap_sub(sy, layer.y) % 8,
    )
}

/// A layer never shows a raw value of 0. What it shows is the cell's
/// subpalette times 8 plus the raw value, with the cell's priority.
pub proof fn lemma_layer_hit_colorized(layer: BgLayer, data: TileData, sx: u8, sy: u8)
    ensures
        layer_raw(layer, data, sx, sy) == 0 ==> layer_hit(layer, data, sx, sy) is None,
        layer_hit(layer, data, sx, sy) matches Some(h) ==> {
            let a = layer.attributes@[cell_under(layer, sx, sy)].bits();
            &&& !layer.hidden
            &&& layer_raw(layer, data, sx, sy) != 0
            &&& h.index == subpalette_bits(a) * 8 + layer_raw(layer, data, sx, sy)
            &&& h.index < 64
            &&& h.priority == priority_bits(a)
        },
{
    reveal(layer_hit);
    let cell = cell_under(layer, sx, sy);
    lemma_field_bounds(layer.attributes@[cell].bits());
    lemma_raw_pixel_bound(
        data,
        layer.tiles@[cell].0,
        layer.attributes@[cell].bits(),
        wrap_sub(sx, layer.x) % 8,
        wrap_sub(sy, layer.y) % 8,
    );
}

/// Scroll offsets are taken modulo 256: a layer scrolled to `layer.x`
/// resolves screen pixel (`sx`, `sy`) exactly as one scrolled to any `scroll`
/// congruent to it (255 and -1, say), at layer-relative column
/// (`sx` - `scroll`) mod 256.
pub proof fn lemma_scroll_wraps(layer: BgLayer, data: TileData, scroll: int, sx: u8, sy: u8)
    requires
        layer.x as int == scroll % 256,
    ensures
        layer_hit(layer, data, sx, sy) == if layer.hidden {
            None
        } else {
            cell_hit(layer, data, ((sx - scroll) % 256) as u8, wrap_sub(sy, layer.y))
        },
{
    reveal(layer_hit);
    assert(wrap_sub(sx, layer.x) as int == (sx - scroll) % 256) by {
        vstd::arithmetic::div_mod::lemma_fundamental_div_mod(scroll, 256);
        vstd::arithmetic::div_mod::lemma_mod_sub_multiples_vanish(sx - layer.x, 256);
        let q = scroll / 256;
        assert(sx - scroll == (sx - layer.x) - 256 * q);
        vstd::arithmetic::div_mod::lemma_mod_multiples_vanish(-q, sx - layer.x, 256);
    }
}

/// A scrollable 32x32 grid of tiles with an attribute byte per cell.
#[derive(Debug, Clone, Copy)]
pub struct BgLayer {
    pub x: u8,
    pub y: u8,
    pub tiles: [TileIndex; NUM_BG_TILES],
    pub attributes: [TileAttributes; NUM_BG_TILES],
    pub hidden: bool,
}

impl Default for BgLayer {
    /// An unscrolled, visible layer of tile 0 with all-zero attributes.
    fn default() -> (l: BgLayer)
        ensures
            l.x == 0,
            l.y == 0,
            !l.hidden,
            forall|i: int| 0 <= i < NUM_BG_TILES ==> #[trigger] l.tiles@[i] == TileIndex(0),
            forall|i: int| 0 <= i < NUM_BG_TILES ==> (#[trigger] l.attributes@[i]).bits() == 0,
    {
        BgLayer {
            x: 0,
            y: 0,
            tiles: [TileIndex(0); NUM_BG_TILES],
            attributes: [TileAttributes::empty(); NUM_BG_TILES],
            hidden: false,
        }
    }
}

impl BgLayer {
    pub fn get_tile_index(&self, tile_x: u8, tile_y: u8) -> (t: TileIndex)
        ensures
            t == self.tiles@[cell_address(tile_x as int, tile_y as int)],
    {
        let i = (tile_x as usize + BG_WIDTH * tile_y as usize) % NUM_BG_TILES;
        self.tiles[i]
    }

    pub fn get_tile_attribute(&self, tile_x: u8, tile_y: u8) -> (a: &TileAttributes)
        ensures
            *a == self.attributes@[cell_address(tile_x as int, tile_y as int)],
    {
        let i = (tile_x as usize + BG_WIDTH * tile_y as usize) % NUM_BG_TILES;
        &self.attributes[i]
    }

    /// The palette index and priority that this layer shows at screen pixel
    /// (`screen_x`, `screen_y`), or `None` where it is hidden or transparent.
    pub fn hit(&self, tileset: &Tileset, screen_x: u8, screen_y: u8) -> (r: Option<(PaletteIndex, u8)>)
        ensures
            r matches Some((p, q)) ==> layer_hit(*self, tileset.pixel_data, screen_x, screen_y)
                == Some(Hit { index: p.0, priority: q }) && p.0 < 64 && q <= 3,
            r is None ==> layer_hit(*self, tileset.pixel_data, screen_x, screen_y) is None,
    {
        reveal(layer_hit);
        if self.hidden {
            return None;
        }
        let relative_x = wrapping_offset(screen_x, self.x);
        let relative_y = wrapping_offset(screen_y, self.y);
        let tile_x = relative_x / TILE_SIZE as u8;
        let tile_y = relative_y / TILE_SIZE as u8;
        let tile_index = self.get_tile_index(tile_x, tile_y);
        let attributes = self.get_tile_attribute(tile_x, tile_y);
        let pixel: RawPixel = tileset.pixel(
            tile_index,
            attributes,
            relative_x % TILE_SIZE as u8,
            relative_y % TILE_SIZE as u8,
        );
        if pixel.0 == 0 {
            None
        } else {
            let subpalette = attributes.get_palette();
            proof {
                lemma_field_bounds(attributes.bits());
            }
            Some((subpalette.colorize_pixel(pixel), attributes.get_priority()))
        }
    }
}

} // verus!
