use vstd::prelude::*;

use crate::color::{argb_of, colorize, Palette, PaletteIndex, RawPixel, Rgb};
use crate::constants::{
    NUM_BG_LAYERS, NUM_BG_TILES, NUM_OAM_ENTRIES, NUM_OBJECT_PRIORITY_LEVELS, NUM_PALETTE_ENTRIES,
    NUM_SCREEN_PIXELS, SCREEN_HEIGHT, SCREEN_WIDTH, TILE_HEIGHT, TILE_WIDTH,
};
use crate::layer::{
    cell_under, layer_hit, layer_raw, lemma_layer_hit_colorized, wrap_sub, wrapping_offset, BgLayer, Hit,
};
use crate::oam::{in_span, is_default_sprite, span_contains, OamEntry, OamIndex, OamTable};
use crate::tile::{
    lemma_field_bounds, lemma_raw_pixel_bound, priority_bits, raw_pixel, subpalette_bits, TileData, TileIndex,
    Tileset,
};

verus! {

broadcast use vstd::array::group_array_axioms;

/// Where a composited pixel came from.
#[derive(Debug, Clone, Copy, PartialEq, Eq, Structural)]
pub enum LayerType {
    BgColor,
    BgLayer(u8),
    Oam(OamIndex),
}

/// A resolved pixel: its source, its palette index and its priority.
#[derive(Debug, Clone, Copy, PartialEq, Eq, Structural)]
pub struct LayerHit {
    pub layer: LayerType,
    pub hit: PaletteIndex,
    pub priority: u8,
}

/// Whether sprite `e` covers scanline `line`.
pub open spec fn on_scanline(e: OamEntry, line: u8) -> bool {
    in_span(e.y, line)
}

/// The sprites of the first `n` slots that cover scanline `line`, in slot
/// order.
pub open spec fn scanline_objects(oam: Seq<OamEntry>, line: u8, n: int) -> Seq<OamIndex>
    decreases n,
{
    if n <= 0 {
        Seq::empty()
    } else if on_scanline(oam[n - 1], line) {
        scanline_objects(oam, line, n - 1).push(OamIndex((n - 1) as u8))
    } else {
        scanline_objects(oam, line, n - 1)
    }
}

/// The raw value that sprite `e` shows at screen pixel (`x`, `y`).
pub open spec fn sprite_pixel(data: TileData, e: OamEntry, x: u8, y: u8) -> u8 {
    raw_pixel(data, e.tile_index.0, e.attributes.bits(), wrap_sub(x, e.x), wrap_sub(y, e.y))
}

/// The first sprite of `list`, from position `j` on, whose box holds column
/// `x` and whose raw value at (`x`, `y`) is not 0.
pub open spec fn sprite_hit_from(
    oam: Seq<OamEntry>,
    data: TileData,
    list: Seq<OamIndex>,
    j: int,
    x: u8,
    y: u8,
) -> Option<LayerHit>
    decreases list.len() - j,
{
    if j < 0 || j >= list.len() {
        None
    } else {
        let e = oam[list[j].0 as int];
        let raw = sprite_pixel(data, e, x, y);
        if in_span(e.x, x) && raw != 0 {
            Some(
                LayerHit {
                    layer: LayerType::Oam(list[j]),
                    hit: PaletteIndex(colorize(subpalette_bits(e.attributes.bits()), raw)),
                    priority: priority_bits(e.attributes.bits()),
                },
            )
        } else {
            sprite_hit_from(oam, data, list, j + 1, x, y)
        }
    }
}

/// Background hit `h` of layer `k`, as a composited pixel.
pub open spec fn as_layer_hit(h: Hit, k: int) -> LayerHit {
    LayerHit { layer: LayerType::BgLayer(k as u8), hit: PaletteIndex(h.index), priority: h.priority }
}

/// The hit of the highest-indexed layer below `n` whose hit in `hits` has
/// priority `level`.
pub open spec fn bg_at_level(hits: Seq<Option<Hit>>, level: int, n: int) -> Option<LayerHit>
    decreases n,
{
    if n <= 0 {
        None
    } else {
        match hits[n - 1] {
            Some(h) if h.priority == level => Some(as_layer_hit(h, n - 1)),
            _ => bg_at_level(hits, level, n - 1),
        }
    }
}

/// The priority scan from `level` down to 0: at each level the sprite hit
/// wins if its priority is that level, else a background hit of that level;
/// when no level matches, the background color.
pub open spec fn scan_levels(
    sprite: Option<LayerHit>,
    hits: Seq<Option<Hit>>,
    background: PaletteIndex,
    level: int,
) -> LayerHit
    decreases level + 1,
{
    if level < 0 {
        LayerHit { layer: LayerType::BgColor, hit: background, priority: 0 }
    } else if sprite matches Some(s) && s.priority == level {
        sprite.unwrap()
    } else if bg_at_level(hits, level, hits.len() as int) is Some {
        bg_at_level(hits, level, hits.len() as int).unwrap()
    } else {
        scan_levels(sprite, hits, background, level - 1)
    }
}

/// Background hit `o` of layer `k`, as an optional composited pixel.
pub open spec fn as_opt_layer_hit(o: Option<Hit>, k: int) -> Option<LayerHit> {
    match o {
        Some(h) => Some(as_layer_hit(h, k)),
        None => None,
    }
}

/// Every sprite in a scanline's list is one of the first `n` slots and
/// covers that scanline.
pub proof fn lemma_scanline_objects_cover(oam: Seq<OamEntry>, line: u8, n: int, k: int)
    requires
        0 <= n <= NUM_OAM_ENTRIES,
        0 <= k < scanline_objects(oam, line, n).len(),
    ensures
        scanline_objects(oam, line, n)[k].0 < n,
        on_scanline(oam[scanline_objects(oam, line, n)[k].0 as int], line),
    decreases n,
{
    if n > 0 {
        let prev = scanline_objects(oam, line, n - 1);
        if k < prev.len() {
            lemma_scanline_objects_cover(oam, line, n - 1, k);
        }
    }
}

/// A sprite whose y is the screen height is in no visible scanline's list.
pub proof fn lemma_hidden_sprite_not_gathered(oam: Seq<OamEntry>, line: u8, i: u8)
    requires
        oam[i as int].y == SCREEN_HEIGHT,
        line < SCREEN_HEIGHT,
    ensures
        !scanline_objects(oam, line, NUM_OAM_ENTRIES as int).contains(OamIndex(i)),
{
    let list = scanline_objects(oam, line, NUM_OAM_ENTRIES as int);
    if list.contains(OamIndex(i)) {
        let k = choose|k: int| 0 <= k < list.len() && list[k] == OamIndex(i);
        lemma_scanline_objects_cover(oam, line, NUM_OAM_ENTRIES as int, k);
    }
}

/// A sprite never shows a raw value of 0. The sprite hit is a sprite whose
/// box holds the pixel; its palette index is the sprite's subpalette times 8
/// plus the raw value, and its priority is the sprite's.
pub proof fn lemma_sprite_hit_colorized(
    oam: Seq<OamEntry>,
    data: TileData,
    list: Seq<OamIndex>,
    j: int,
    x: u8,
    y: u8,
)
    ensures
        sprite_hit_from(oam, data, list, j, x, y) matches Some(h) ==> match h.layer {
            LayerType::Oam(i) => {
                let e = oam[i.0 as int];
                &&& list.contains(i)
                &&& in_span(e.x, x)
                &&& sprite_pixel(data, e, x, y) != 0
                &&& h.hit.0 == subpalette_bits(e.attributes.bits()) * 8 + sprite_pixel(data, e, x, y)
                &&& h.hit.0 < NUM_PALETTE_ENTRIES
                &&& h.priority == priority_bits(e.attributes.bits())
            },
            _ => false,
        },
    decreases list.len() - j,
{
    if 0 <= j < list.len() {
        let e = oam[list[j].0 as int];
        lemma_field_bounds(e.attributes.bits());
        lemma_raw_pixel_bound(data, e.tile_index.0, e.attributes.bits(), wrap_sub(x, e.x), wrap_sub(y, e.y));
        lemma_sprite_hit_colorized(oam, data, list, j + 1, x, y);
    }
}

/// A found background hit at `level` comes from a layer below `n` whose hit
/// has that priority.
pub proof fn lemma_bg_at_level_source(hits: Seq<Option<Hit>>, level: int, n: int)
    requires
        n <= hits.len(),
    ensures
        bg_at_level(hits, level, n) matches Some(r) ==> exists|k: int|
            0 <= k < n && (#[trigger] hits[k] matches Some(h) && h.priority == level && r
                == as_layer_hit(h, k)),
    decreases n,
{
    if n > 0 {
        lemma_bg_at_level_source(hits, level, n - 1);
    }
}

/// Some layer below `n` has a hit of priority `level`, so a background hit
/// of that level is found.
pub proof fn lemma_bg_at_level_found(hits: Seq<Option<Hit>>, level: int, n: int, k: int)
    requires
        0 <= k < n <= hits.len(),
        hits[k] matches Some(h) && h.priority == level,
    ensures
        bg_at_level(hits, level, n) matches Some(r) && r.priority == level && r.layer is BgLayer,
    decreases n,
{
    if k < n - 1 {
        lemma_bg_at_level_found(hits, level, n - 1, k);
    }
}

/// A sprite hit whose priority is at least that of every background hit is
/// the pixel shown.
pub proof fn lemma_sprite_over_background(
    s: LayerHit,
    hits: Seq<Option<Hit>>,
    background: PaletteIndex,
    level: int,
)
    requires
        s.priority <= level,
        forall|k: int| 0 <= k < hits.len() ==> (#[trigger] hits[k] matches Some(h) ==> h.priority <= s.priority),
    ensures
        scan_levels(Some(s), hits, background, level) == s,
    decreases level + 1,
{
    if level > s.priority {
        lemma_bg_at_level_source(hits, level, hits.len() as int);
        lemma_sprite_over_background(s, hits, background, level - 1);
    }
}

/// A background hit whose priority is above the sprite hit's (or with no
/// sprite hit) and at least that of every other background hit is shown: the
/// pixel is a background hit of that priority.
pub proof fn lemma_background_over_sprite(
    sprite: Option<LayerHit>,
    hits: Seq<Option<Hit>>,
    background: PaletteIndex,
    k: int,
    level: int,
)
    requires
        0 <= k < hits.len(),
        hits[k] matches Some(h) && h.priority <= level && (sprite matches Some(s) ==> s.priority
            < h.priority),
        forall|m: int|
            0 <= m < hits.len() ==> (#[trigger] hits[m] matches Some(h) ==> h.priority
                <= hits[k].unwrap().priority),
    ensures
        scan_levels(sprite, hits, background, level).priority == hits[k].unwrap().priority,
        scan_levels(sprite, hits, background, level).layer is BgLayer,
    decreases level + 1,
{
    let p = hits[k].unwrap().priority as int;
    if level == p {
        lemma_bg_at_level_found(hits, level, hits.len() as int, k);
    } else {
        lemma_bg_at_level_source(hits, level, hits.len() as int);
        lemma_background_over_sprite(sprite, hits, background, k, level - 1);
    }
}

/// The pixel that the priority scan picks is the sprite hit, a background
/// hit of its own layer, or the background color.
pub proof fn lemma_scan_levels_source(
    sprite: Option<LayerHit>,
    hits: Seq<Option<Hit>>,
    background: PaletteIndex,
    level: int,
)
    requires
        hits.len() <= NUM_BG_LAYERS,
    ensures
        ({
            let r = scan_levels(sprite, hits, background, level);
            ||| r == (LayerHit { layer: LayerType::BgColor, hit: background, priority: 0 })
            ||| sprite == Some(r)
            ||| exists|k: int|
                0 <= k < hits.len() && (#[trigger] hits[k] matches Some(h) && r == as_layer_hit(h, k))
        }),
    decreases level + 1,
{
    if level >= 0 {
        lemma_bg_at_level_source(hits, level, hits.len() as int);
        lemma_scan_levels_source(sprite, hits, background, level - 1);
    }
}

/// The color of a rendered pixel is palette entry `subpalette * 8 + raw` of
/// what shows there: of the sprite, when a sprite wins the pixel, and of the
/// layer's cell, when a background layer wins it.
pub proof fn lemma_frame_colorization(v: Vfc, x: u8, y: u8)
    ensures
        ({
            let list = scanline_objects(v.oam.0@, y, NUM_OAM_ENTRIES as int);
            let h = v.top_hit(list, x, y);
            &&& h.layer matches LayerType::Oam(i) ==> {
                let e = v.oam.0@[i.0 as int];
                let raw = sprite_pixel(v.tileset.pixel_data, e, x, y);
                &&& raw != 0
                &&& v.frame_color(x, y) == v.palette.entries()[subpalette_bits(e.attributes.bits()) * 8 + raw]
            }
            &&& h.layer matches LayerType::BgLayer(k) ==> {
                let layer = v.bg_layers@[k as int];
                let raw = layer_raw(layer, v.tileset.pixel_data, x, y);
                &&& raw != 0
                &&& v.frame_color(x, y) == v.palette.entries()[subpalette_bits(
                    layer.attributes@[cell_under(layer, x, y)].bits(),
                ) * 8 + raw]
            }
        }),
{
    let list = scanline_objects(v.oam.0@, y, NUM_OAM_ENTRIES as int);
    let hits = v.layer_hits(x, y);
    let sprite = v.sprite_hit(list, x, y);
    lemma_scan_levels_source(sprite, hits, v.background_color, 3);
    lemma_sprite_hit_colorized(v.oam.0@, v.tileset.pixel_data, list, 0, x, y);
    let h = v.top_hit(list, x, y);
    if h.layer is BgLayer {
        let k = choose|k: int| 0 <= k < hits.len() && (#[trigger] hits[k] matches Some(hh) && h == as_layer_hit(hh, k));
        lemma_layer_hit_colorized(v.bg_layers@[k], v.tileset.pixel_data, x, y);
    }
}

/// The framebuffer offset of pixel (`x`, `y`).
pub open spec fn pixel_offset(x: int, y: int) -> int {
    x + SCREEN_WIDTH * y
}

/// The fantasy console: the state that a frame is composited from, and the
/// framebuffer it is composited into.
pub struct Vfc {
    pub framebuffer: [Rgb; NUM_SCREEN_PIXELS],
    pub oam: OamTable,
    pub oam_hidden: bool,
    pub palette: Palette,
    pub background_color: PaletteIndex,
    pub tileset: Tileset,
    pub bg_layers: [BgLayer; NUM_BG_LAYERS],
}

impl Default for Vfc {
    fn default() -> (v: Vfc)
        ensures
            v.oam_hidden == false,
            v.background_color == PaletteIndex(0),
            forall|i: int| 0 <= i < NUM_OAM_ENTRIES ==> is_default_sprite(#[trigger] v.oam.0@[i]),
            forall|i: int| 0 <= i < NUM_PALETTE_ENTRIES ==> (#[trigger] v.palette.entries()[i]).argb() == 0,
            forall|i: int| 0 <= i < NUM_BG_LAYERS ==> !(#[trigger] v.bg_layers@[i]).hidden,
            forall|i: int| 0 <= i < NUM_BG_LAYERS ==> (#[trigger] v.bg_layers@[i]).x == 0 && v.bg_layers@[i].y == 0,
            forall|i: int, c: int|
                0 <= i < NUM_BG_LAYERS && 0 <= c < NUM_BG_TILES ==> #[trigger] v.bg_layers@[i].tiles@[c]
                    == TileIndex(0) && v.bg_layers@[i].attributes@[c].bits() == 0,
            forall|p: int, t: int, y: int|
                0 <= p < 3 && 0 <= t < 256 && 0 <= y < 8 ==> #[trigger] v.tileset.pixel_data@[p]@[t]@[y] == 0,
            forall|i: int| 0 <= i < NUM_SCREEN_PIXELS ==> (#[trigger] v.framebuffer@[i]).argb() == 0,
    {
        Vfc {
            framebuffer: [Rgb::default(); NUM_SCREEN_PIXELS],
            oam: OamTable::default(),
            oam_hidden: false,
            palette: Palette::black(),
            background_color: PaletteIndex(0),
            tileset: Tileset::new(),
            bg_layers: [BgLayer::default(), BgLayer::default()],
        }
    }
}

impl Vfc {
    /// The sprite hit among `list` at (`x`, `y`); `None` if sprites are hidden.
    pub open spec fn sprite_hit(self, list: Seq<OamIndex>, x: u8, y: u8) -> Option<LayerHit> {
        if self.oam_hidden {
            None
        } else {
            sprite_hit_from(self.oam.0@, self.tileset.pixel_data, list, 0, x, y)
        }
    }

    /// What each background layer shows at (`x`, `y`), by layer index.
    pub open spec fn layer_hits(self, x: u8, y: u8) -> Seq<Option<Hit>> {
        Seq::new(
            NUM_BG_LAYERS as nat,
            |i: int| layer_hit(self.bg_layers@[i], self.tileset.pixel_data, x, y),
        )
    }

    /// The pixel that wins at (`x`, `y`), given the scanline's sprite list.
    pub open spec fn top_hit(self, list: Seq<OamIndex>, x: u8, y: u8) -> LayerHit {
        scan_levels(self.sprite_hit(list, x, y), self.layer_hits(x, y), self.background_color, 3)
    }

    /// The color that a rendered frame holds at (`x`, `y`).
    pub open spec fn frame_color(self, x: u8, y: u8) -> Rgb {
        self.palette.entries()[self.top_hit(
            scanline_objects(self.oam.0@, y, NUM_OAM_ENTRIES as int),
            x,
            y,
        ).hit.0 as int]
    }

    /// Everything but the framebuffer is the same in `self` and `other`.
    pub open spec fn same_scene(self, other: Vfc) -> bool {
        &&& self.oam == other.oam
        &&& self.oam_hidden == other.oam_hidden
        &&& self.palette == other.palette
        &&& self.background_color == other.background_color
        &&& self.tileset == other.tileset
        &&& self.bg_layers == other.bg_layers
    }

    pub fn new() -> (v: Vfc)
        ensures
            v.oam_hidden == false,
            v.background_color == PaletteIndex(0),
            forall|i: int| 0 <= i < NUM_OAM_ENTRIES ==> is_default_sprite(#[trigger] v.oam.0@[i]),
            forall|i: int| 0 <= i < NUM_PALETTE_ENTRIES ==> (#[trigger] v.palette.entries()[i]).argb() == 0,
            forall|i: int| 0 <= i < NUM_BG_LAYERS ==> !(#[trigger] v.bg_layers@[i]).hidden,
            forall|i: int| 0 <= i < NUM_BG_LAYERS ==> (#[trigger] v.bg_layers@[i]).x == 0 && v.bg_layers@[i].y == 0,
            forall|i: int, c: int|
                0 <= i < NUM_BG_LAYERS && 0 <= c < NUM_BG_TILES ==> #[trigger] v.bg_layers@[i].tiles@[c]
                    == TileIndex(0) && v.bg_layers@[i].attributes@[c].bits() == 0,
            forall|p: int, t: int, y: int|
                0 <= p < 3 && 0 <= t < 256 && 0 <= y < 8 ==> #[trigger] v.tileset.pixel_data@[p]@[t]@[y] == 0,
            forall|i: int| 0 <= i < NUM_SCREEN_PIXELS ==> (#[trigger] v.framebuffer@[i]).argb() == 0,
    {
        Vfc::default()
    }

    /// A palette for testing: entry `i` has red `(i % 16) * 16`, green
    /// `(i / 16) * 16` and blue `i`.
    pub fn test_palette() -> (p: Palette)
        ensures
            forall|i: int|
                0 <= i < NUM_PALETTE_ENTRIES ==> (#[trigger] p.entries()[i]).argb() == argb_of(
                    ((i % 16) * 16) as u8,
                    ((i / 16) * 16) as u8,
                    i as u8,
                ),
    {
        let mut entries = [Rgb::default(); NUM_PALETTE_ENTRIES];
        let mut i: usize = 0;
        while i < NUM_PALETTE_ENTRIES
            invariant
                i <= NUM_PALETTE_ENTRIES,
                forall|k: int|
                    0 <= k < i ==> (#[trigger] entries@[k]).argb() == argb_of(
                        ((k % 16) * 16) as u8,
                        ((k / 16) * 16) as u8,
                        k as u8,
                    ),
            decreases NUM_PALETTE_ENTRIES - i,
        {
            let x = (i % 16) as u8;
            let y = (i / 16) as u8;
            entries[i] = Rgb::new(x * 16, y * 16, i as u8);
            i += 1;
        }
        Palette::new(entries)
    }

    /// The framebuffer offset of pixel (`x`, `y`).
    pub fn get_fb_pixel_index(x: u8, y: u8) -> (i: usize)
        ensures
            i == x + SCREEN_WIDTH * y,
    {
        x as usize + SCREEN_WIDTH * y as usize
    }

    /// The color at palette index `index`.
    pub fn get_pixel_rgb(&self, index: PaletteIndex) -> (c: Rgb)
        requires
            index.0 < NUM_PALETTE_ENTRIES,
        ensures
            c == self.palette.entries()[index.0 as int],
    {
        self.palette.get(index)
    }

    /// The raw value that sprite `tile_index` shows at screen pixel
    /// (`screen_x`, `screen_y`), reading its tile under its own flip bits.
    pub fn get_tile_pixel_global(&self, tile_index: OamIndex, screen_x: u8, screen_y: u8) -> (p: RawPixel)
        ensures
            p.0 == sprite_pixel(self.tileset.pixel_data, self.oam.0@[tile_index.0 as int], screen_x, screen_y),
            p.0 <= 7,
    {
        let oam_entry = self.oam.get(tile_index);
        let local_x = wrapping_offset(screen_x, oam_entry.x);
        let local_y = wrapping_offset(screen_y, oam_entry.y);
        self.tileset.pixel(oam_entry.tile_index, &oam_entry.attributes, local_x, local_y)
    }

    /// The sprites whose rows cover `scanline`, in table order.
    pub fn get_objects_on_scanline(&self, scanline: u8) -> (r: Vec<OamIndex>)
        ensures
            r@ == scanline_objects(self.oam.0@, scanline, NUM_OAM_ENTRIES as int),
    {
        let mut sorted_objects: Vec<OamIndex> = Vec::new();
        let mut object_index: usize = 0;
        while object_index < NUM_OAM_ENTRIES
            invariant
                object_index <= NUM_OAM_ENTRIES,
                sorted_objects@ == scanline_objects(self.oam.0@, scanline, object_index as int),
            decreases NUM_OAM_ENTRIES - object_index,
        {
            let object = self.oam.get(OamIndex(object_index as u8));
            if span_contains(object.y, TILE_HEIGHT as u8, scanline) {
                sorted_objects.push(OamIndex(object_index as u8));
            }
            object_index += 1;
        }
        sorted_objects
    }

    /// The first sprite of `object_list` that shows a non-transparent pixel at
    /// (`pixel_x`, `pixel_y`).
    pub fn object_hit(&self, object_list: &[OamIndex], pixel_x: u8, pixel_y: u8) -> (r: Option<LayerHit>)
        ensures
            r == sprite_hit_from(self.oam.0@, self.tileset.pixel_data, object_list@, 0, pixel_x, pixel_y),
            r matches Some(h) ==> h.hit.0 < NUM_PALETTE_ENTRIES && h.priority <= 3,
    {
        let mut j: usize = 0;
        while j < object_list.len()
            invariant
                j <= object_list@.len(),
                sprite_hit_from(self.oam.0@, self.tileset.pixel_data, object_list@, 0, pixel_x, pixel_y)
                    == sprite_hit_from(self.oam.0@, self.tileset.pixel_data, object_list@, j as int, pixel_x, pixel_y),
            decreases object_list@.len() - j,
        {
            let index = object_list[j];
            let oam_entry = self.oam.get(index);
            if span_contains(oam_entry.x, TILE_WIDTH as u8, pixel_x) {
                let pixel = self.get_tile_pixel_global(index, pixel_x, pixel_y);
                if pixel.0 != 0 {
                    proof {
                        lemma_field_bounds(oam_entry.attributes.bits());
                    }
                    return Some(
                        LayerHit {
                            hit: oam_entry.attributes.get_palette().colorize_pixel(pixel),
                            layer: LayerType::Oam(index),
                            priority: oam_entry.attributes.get_priority(),
                        },
                    );
                }
            }
            j += 1;
        }
        None
    }

    /// What each background layer shows at (`pixel_x`, `pixel_y`), by layer
    /// index.
    pub fn background_hit(&self, pixel_x: u8, pixel_y: u8) -> (r: Vec<Option<LayerHit>>)
        ensures
            r@.len() == NUM_BG_LAYERS,
            forall|i: int|
                0 <= i < NUM_BG_LAYERS ==> #[trigger] r@[i] == as_opt_layer_hit(
                    self.layer_hits(pixel_x, pixel_y)[i],
                    i,
                ),
            forall|i: int|
                0 <= i < NUM_BG_LAYERS ==> (#[trigger] r@[i] matches Some(h) ==> h.hit.0
                    < NUM_PALETTE_ENTRIES),
    {
        let ghost hs = self.layer_hits(pixel_x, pixel_y);
        let mut hits: Vec<Option<LayerHit>> = Vec::new();
        let mut i: usize = 0;
        while i < NUM_BG_LAYERS
            invariant
                i <= NUM_BG_LAYERS,
                hits@.len() == i,
                hs == self.layer_hits(pixel_x, pixel_y),
                forall|k: int| 0 <= k < i ==> #[trigger] hits@[k] == as_opt_layer_hit(hs[k], k),
                forall|k: int|
                    0 <= k < i ==> (#[trigger] hits@[k] matches Some(h) ==> h.hit.0
                        < NUM_PALETTE_ENTRIES),
            decreases NUM_BG_LAYERS - i,
        {
            let h = match self.bg_layers[i].hit(&self.tileset, pixel_x, pixel_y) {
                Some((index, priority)) => Some(
                    LayerHit { layer: LayerType::BgLayer(i as u8), hit: index, priority },
                ),
                None => None,
            };
            hits.push(h);
            i += 1;
        }
        hits
    }

    /// The pixel that wins at (`pixel_x`, `pixel_y`): priority levels are
    /// scanned from 3 down to 0; at each, the sprite hit wins if it has that
    /// priority, else the highest-indexed background layer with a hit of that
    /// priority. With no match the background color shows. While sprites are
    /// hidden, no sprite hit exists.
    pub fn get_top_pixel(&self, object_list: &[OamIndex], pixel_x: u8, pixel_y: u8) -> (r: LayerHit)
        ensures
            r == self.top_hit(object_list@, pixel_x, pixel_y),
            self.background_color.0 < NUM_PALETTE_ENTRIES ==> r.hit.0 < NUM_PALETTE_ENTRIES,
    {
        let oam_hit = if self.oam_hidden {
            None
        } else {
            self.object_hit(object_list, pixel_x, pixel_y)
        };
        let bg_hits = self.background_hit(pixel_x, pixel_y);
        let ghost sprite = self.sprite_hit(object_list@, pixel_x, pixel_y);
        let ghost hs = self.layer_hits(pixel_x, pixel_y);
        let mut level: u8 = NUM_OBJECT_PRIORITY_LEVELS as u8;
        while level > 0
            invariant
                level <= 4,
                oam_hit == sprite,
                oam_hit matches Some(h) ==> h.hit.0 < NUM_PALETTE_ENTRIES,
                hs.len() == NUM_BG_LAYERS,
                bg_hits@.len() == NUM_BG_LAYERS,
                forall|k: int| 0 <= k < NUM_BG_LAYERS ==> #[trigger] bg_hits@[k] == as_opt_layer_hit(hs[k], k),
                forall|k: int|
                    0 <= k < NUM_BG_LAYERS ==> (#[trigger] bg_hits@[k] matches Some(h) ==> h.hit.0
                        < NUM_PALETTE_ENTRIES),
                self.top_hit(object_list@, pixel_x, pixel_y) == scan_levels(
                    sprite,
                    hs,
                    self.background_color,
                    level - 1,
                ),
            decreases level,
        {
            level -= 1;
            if let Some(h) = oam_hit {
                if h.priority == level {
                    return h;
                }
            }
            let mut i: usize = NUM_BG_LAYERS;
            while i > 0
                invariant
                    i <= NUM_BG_LAYERS,
                    level < 4,
                    !(sprite matches Some(sp) && sp.priority == level),
                    self.top_hit(object_list@, pixel_x, pixel_y) == scan_levels(
                        sprite,
                        hs,
                        self.background_color,
                        level as int,
                    ),
                    bg_hits@.len() == NUM_BG_LAYERS,
                    hs.len() == NUM_BG_LAYERS,
                    forall|k: int| 0 <= k < NUM_BG_LAYERS ==> #[trigger] bg_hits@[k] == as_opt_layer_hit(hs[k], k),
                    forall|k: int|
                        0 <= k < NUM_BG_LAYERS ==> (#[trigger] bg_hits@[k] matches Some(h) ==> h.hit.0
                            < NUM_PALETTE_ENTRIES),
                    bg_at_level(hs, level as int, NUM_BG_LAYERS as int) == bg_at_level(hs, level as int, i as int),
                decreases i,
            {
                i -= 1;
                if let Some(h) = bg_hits[i] {
                    if h.priority == level {
                        return h;
                    }
                }
            }
        }
        LayerHit { layer: LayerType::BgColor, hit: self.background_color, priority: 0 }
    }

    /// Composites scanline `yi` from `object_list`, the sprites gathered for
    /// it, and leaves every other row of the framebuffer as it was.
    pub fn render_scanline(&mut self, object_list: &[OamIndex], yi: u8)
        requires
            yi < SCREEN_HEIGHT,
            old(self).background_color.0 < NUM_PALETTE_ENTRIES,
        ensures
            final(self).same_scene(*old(self)),
            forall|x: int|
                0 <= x < SCREEN_WIDTH ==> #[trigger] final(self).framebuffer@[pixel_offset(x, yi as int)]
                    == old(self).palette.entries()[old(self).top_hit(object_list@, x as u8, yi).hit.0 as int],
            forall|i: int|
                0 <= i < NUM_SCREEN_PIXELS && !(pixel_offset(0, yi as int) <= i < pixel_offset(0, yi + 1))
                    ==> #[trigger] final(self).framebuffer@[i] == old(self).framebuffer@[i],
    {
        let mut xi: usize = 0;
        while xi < SCREEN_WIDTH
            invariant
                xi <= SCREEN_WIDTH,
                yi < SCREEN_HEIGHT,
                self.same_scene(*old(self)),
                self.background_color.0 < NUM_PALETTE_ENTRIES,
                forall|x: int|
                    0 <= x < xi ==> #[trigger] self.framebuffer@[pixel_offset(x, yi as int)]
                        == old(self).palette.entries()[old(self).top_hit(object_list@, x as u8, yi).hit.0 as int],
                forall|i: int|
                    0 <= i < NUM_SCREEN_PIXELS && !(pixel_offset(0, yi as int) <= i < pixel_offset(0, yi + 1))
                        ==> #[trigger] self.framebuffer@[i] == old(self).framebuffer@[i],
            decreases SCREEN_WIDTH - xi,
        {
            let x = xi as u8;
            let pixel_index = Vfc::get_fb_pixel_index(x, yi);
            let top = self.get_top_pixel(object_list, x, yi);
            let color = self.palette.get(top.hit);
            self.framebuffer[pixel_index] = color;
            xi += 1;
        }
    }

    /// Composites the whole frame: each scanline's sprites are gathered once,
    /// then each of its pixels takes the palette color of the pixel that wins
    /// there.
    pub fn render_frame(&mut self)
        requires
            old(self).background_color.0 < NUM_PALETTE_ENTRIES,
        ensures
            final(self).same_scene(*old(self)),
            forall|x: int, y: int|
                0 <= x < SCREEN_WIDTH && 0 <= y < SCREEN_HEIGHT ==> #[trigger] final(self).framebuffer@[pixel_offset(x, y)]
                    == old(self).frame_color(x as u8, y as u8),
    {
        let mut scanline: u8 = 0;
        while (scanline as usize) < SCREEN_HEIGHT
            invariant
                scanline <= SCREEN_HEIGHT,
                self.same_scene(*old(self)),
                self.background_color.0 < NUM_PALETTE_ENTRIES,
                forall|x: int, y: int|
                    0 <= x < SCREEN_WIDTH && 0 <= y < scanline ==> #[trigger] self.framebuffer@[pixel_offset(x, y)]
                        == old(self).frame_color(x as u8, y as u8),
            decreases SCREEN_HEIGHT - scanline,
        {
            let object_list = self.get_objects_on_scanline(scanline);
            self.render_scanline(object_list.as_slice(), scanline);
            scanline += 1;
        }
    }
}

} // verus!
