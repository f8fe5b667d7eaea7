use vstd::prelude::*;
use vstd::utf8::{is_ascii_chars, is_ascii_chars_encode_utf8};

use crate::color::Subpalette;
use crate::constants::{BG_HEIGHT, BG_WIDTH, NUM_BG_LAYERS, NUM_OAM_ENTRIES, SCREEN_HEIGHT};
use crate::engine::Vfc;
use crate::layer::{grid_index, BgLayer};
use crate::oam::OamEntry;
use crate::tile::{TileAttributes, TileIndex};

verus! {

broadcast use vstd::array::group_array_axioms;

/// `b` is `a` with only background layer `bg` possibly changed.
pub open spec fn only_layer_changed(a: Vfc, b: Vfc, bg: int) -> bool {
    &&& a.framebuffer == b.framebuffer
    &&& a.oam == b.oam
    &&& a.oam_hidden == b.oam_hidden
    &&& a.palette == b.palette
    &&& a.background_color == b.background_color
    &&& a.tileset == b.tileset
    &&& forall|k: int| 0 <= k < NUM_BG_LAYERS && k != bg ==> #[trigger] a.bg_layers@[k] == b.bg_layers@[k]
}

/// `b` is layer `a` with the tile grid replaced by `tiles`.
pub open spec fn tiles_replaced(a: BgLayer, b: BgLayer, tiles: Seq<TileIndex>) -> bool {
    b.tiles@ == tiles && b.attributes == a.attributes && b.x == a.x && b.y == a.y && b.hidden == a.hidden
}

/// `b` is layer `a` with the attribute grid replaced by `attributes`.
pub open spec fn attributes_replaced(a: BgLayer, b: BgLayer, attributes: Seq<TileAttributes>) -> bool {
    b.attributes@ == attributes && b.tiles == a.tiles && b.x == a.x && b.y == a.y && b.hidden == a.hidden
}

/// The grid cell of tile coordinates (`x`, `y`); both wrap at 32.
pub fn get_index_from_coords(x: usize, y: usize) -> (i: usize)
    ensures
        i == grid_index(x as int, y as int),
        i < 1024,
{
    (y % BG_HEIGHT) * BG_WIDTH + x % BG_WIDTH
}

/// Sets the tile at cell (`x`, `y`) of layer `bg`.
pub fn poke_bg(bg: usize, fc: &mut Vfc, x: usize, y: usize, tile_index: TileIndex)
    requires
        bg < NUM_BG_LAYERS,
    ensures
        only_layer_changed(*old(fc), *final(fc), bg as int),
        tiles_replaced(
            old(fc).bg_layers@[bg as int],
            final(fc).bg_layers@[bg as int],
            old(fc).bg_layers@[bg as int].tiles@.update(grid_index(x as int, y as int), tile_index),
        ),
{
    let i = get_index_from_coords(x, y);
    fc.bg_layers[bg].tiles[i] = tile_index;
}

/// The tile at cell (`x`, `y`) of layer `bg`.
pub fn peek_bg(bg: usize, fc: &Vfc, x: usize, y: usize) -> (t: TileIndex)
    requires
        bg < NUM_BG_LAYERS,
    ensures
        t == fc.bg_layers@[bg as int].tiles@[grid_index(x as int, y as int)],
{
    let i = get_index_from_coords(x, y);
    fc.bg_layers[bg].tiles[i]
}

/// Sets the flip bits of cell (`x`, `y`) of layer `bg`.
pub fn poke_bg_rotation(bg: usize, fc: &mut Vfc, x: usize, y: usize, rotation: u8)
    requires
        bg < NUM_BG_LAYERS,
    ensures
        only_layer_changed(*old(fc), *final(fc), bg as int),
        attributes_replaced(
            old(fc).bg_layers@[bg as int],
            final(fc).bg_layers@[bg as int],
            old(fc).bg_layers@[bg as int].attributes@.update(
                grid_index(x as int, y as int),
                old(fc).bg_layers@[bg as int].attributes@[grid_index(x as int, y as int)].rotation_set(rotation),
            ),
        ),
{
    let i = get_index_from_coords(x, y);
    fc.bg_layers[bg].attributes[i].set_rotation(rotation);
}

/// Sets the subpalette of cell (`x`, `y`) of layer `bg`.
pub fn poke_bg_palette(bg: usize, fc: &mut Vfc, x: usize, y: usize, palette_index: Subpalette)
    requires
        bg < NUM_BG_LAYERS,
    ensures
        only_layer_changed(*old(fc), *final(fc), bg as int),
        attributes_replaced(
            old(fc).bg_layers@[bg as int],
            final(fc).bg_layers@[bg as int],
            old(fc).bg_layers@[bg as int].attributes@.update(
                grid_index(x as int, y as int),
                old(fc).bg_layers@[bg as int].attributes@[grid_index(x as int, y as int)].palette_set(palette_index),
            ),
        ),
{
    let i = get_index_from_coords(x, y);
    fc.bg_layers[bg].attributes[i].set_palette(palette_index);
}

/// Sets the tile at cell (`x`, `y`) of the main layer, layer 0.
pub fn poke_main_bg(fc: &mut Vfc, x: usize, y: usize, tile_index: TileIndex)
    ensures
        only_layer_changed(*old(fc), *final(fc), 0),
        tiles_replaced(
            old(fc).bg_layers@[0],
            final(fc).bg_layers@[0],
            old(fc).bg_layers@[0].tiles@.update(grid_index(x as int, y as int), tile_index),
        ),
{
    poke_bg(0, fc, x, y, tile_index)
}

/// Sets the flip bits of cell (`x`, `y`) of the main layer.
pub fn poke_main_rotation(fc: &mut Vfc, x: usize, y: usize, rotation: u8)
    ensures
        only_layer_changed(*old(fc), *final(fc), 0),
        attributes_replaced(
            old(fc).bg_layers@[0],
            final(fc).bg_layers@[0],
            old(fc).bg_layers@[0].attributes@.update(
                grid_index(x as int, y as int),
                old(fc).bg_layers@[0].attributes@[grid_index(x as int, y as int)].rotation_set(rotation),
            ),
        ),
{
    poke_bg_rotation(0, fc, x, y, rotation)
}

/// The tile at cell (`x`, `y`) of the main layer.
pub fn peek_main_bg(fc: &Vfc, x: usize, y: usize) -> (t: TileIndex)
    ensures
        t == fc.bg_layers@[0].tiles@[grid_index(x as int, y as int)],
{
    peek_bg(0, fc, x, y)
}

/// The tile at cell (`x`, `y`) of the game layer, layer 0.
pub fn peek_game_layer(fc: &Vfc, x: usize, y: usize) -> (t: TileIndex)
    ensures
        t == fc.bg_layers@[0].tiles@[grid_index(x as int, y as int)],
{
    fc.bg_layers[0].tiles[(y % BG_HEIGHT) * BG_WIDTH + x % BG_WIDTH]
}

/// Sets the tile at cell (`x`, `y`) of the auxiliary layer, layer 1.
pub fn poke_aux_bg(fc: &mut Vfc, x: usize, y: usize, tile_index: TileIndex)
    ensures
        only_layer_changed(*old(fc), *final(fc), 1),
        tiles_replaced(
            old(fc).bg_layers@[1],
            final(fc).bg_layers@[1],
            old(fc).bg_layers@[1].tiles@.update(grid_index(x as int, y as int), tile_index),
        ),
{
    poke_bg(1, fc, x, y, tile_index)
}

/// The tile grid after the first `n` bytes of `bytes` are written as text
/// from cell (`x`, `y`) rightwards: byte `b` shows as tile `b + 32`.
pub open spec fn text_tiles(tiles: Seq<TileIndex>, x: int, y: int, bytes: Seq<u8>, n: int) -> Seq<
    TileIndex,
>
    decreases n,
{
    if n <= 0 {
        tiles
    } else {
        text_tiles(tiles, x, y, bytes, n - 1).update(
            grid_index(x + n - 1, y),
            TileIndex((bytes[n - 1] + 32) as u8),
        )
    }
}

/// The attribute grid after the subpalette of the `n` cells from (`x`, `y`)
/// rightwards is set to `s`.
pub open spec fn text_palettes(attributes: Seq<TileAttributes>, x: int, y: int, n: int, s: Subpalette) -> Seq<
    TileAttributes,
>
    decreases n,
{
    if n <= 0 {
        attributes
    } else {
        let prev = text_palettes(attributes, x, y, n - 1, s);
        prev.update(grid_index(x + n - 1, y), prev[grid_index(x + n - 1, y)].palette_set(s))
    }
}

/// The bytes of an ASCII text.
pub open spec fn ascii_bytes(chars: Seq<char>) -> Seq<u8> {
    Seq::new(chars.len(), |i: int| chars[i] as u8)
}

/// Writes `string` on layer `bg` from cell (`x`, `y`) rightwards, one byte per
/// cell, as tile `byte + 32` with subpalette 0. Every byte must be printable
/// ASCII (32 to 127).
pub fn draw_text(bg: usize, fc: &mut Vfc, x: usize, y: usize, string: &str)
    requires
        bg < NUM_BG_LAYERS,
        forall|i: int| 0 <= i < string@.len() ==> ' ' <= #[trigger] string@[i] <= '\u{7f}',
        x + string@.len() <= usize::MAX,
    ensures
        only_layer_changed(*old(fc), *final(fc), bg as int),
        final(fc).bg_layers@[bg as int].tiles@ == text_tiles(
            old(fc).bg_layers@[bg as int].tiles@,
            x as int,
            y as int,
            ascii_bytes(string@),
            string@.len() as int,
        ),
        final(fc).bg_layers@[bg as int].attributes@ == text_palettes(
            old(fc).bg_layers@[bg as int].attributes@,
            x as int,
            y as int,
            string@.len() as int,
            Subpalette(0),
        ),
        final(fc).bg_layers@[bg as int].x == old(fc).bg_layers@[bg as int].x,
        final(fc).bg_layers@[bg as int].y == old(fc).bg_layers@[bg as int].y,
        final(fc).bg_layers@[bg as int].hidden == old(fc).bg_layers@[bg as int].hidden,
{
    let bytes = string.as_bytes();
    proof {
        assert(is_ascii_chars(string@));
        is_ascii_chars_encode_utf8(string@);
        assert(bytes@ =~= ascii_bytes(string@));
        assert forall|i: int| 0 <= i < bytes@.len() implies 32 <= #[trigger] bytes@[i] < 128 by {
            assert(' ' <= string@[i] <= '\u{7f}');
        }
    }
    let mut xi: usize = 0;
    while xi < bytes.len()
        invariant
            bg < NUM_BG_LAYERS,
            bytes@ == ascii_bytes(string@),
            xi <= bytes@.len(),
            x + bytes@.len() <= usize::MAX,
            forall|i: int| 0 <= i < bytes@.len() ==> 32 <= #[trigger] bytes@[i] < 128,
            only_layer_changed(*old(fc), *fc, bg as int),
            fc.bg_layers@[bg as int].tiles@ == text_tiles(
                old(fc).bg_layers@[bg as int].tiles@,
                x as int,
                y as int,
                bytes@,
                xi as int,
            ),
            fc.bg_layers@[bg as int].attributes@ == text_palettes(
                old(fc).bg_layers@[bg as int].attributes@,
                x as int,
                y as int,
                xi as int,
                Subpalette(0),
            ),
            fc.bg_layers@[bg as int].x == old(fc).bg_layers@[bg as int].x,
            fc.bg_layers@[bg as int].y == old(fc).bg_layers@[bg as int].y,
            fc.bg_layers@[bg as int].hidden == old(fc).bg_layers@[bg as int].hidden,
        decreases bytes@.len() - xi,
    {
        let byte_ch = bytes[xi];
        poke_bg(bg, fc, x + xi, y, TileIndex(byte_ch + 32));
        poke_bg_palette(bg, fc, x + xi, y, Subpalette::new(0));
        xi += 1;
    }
}

/// Whether cell `c` is the cell of some tile coordinates in the rectangle
/// [`x0`, `x1`) x [`y0`, `y1`).
pub open spec fn in_rect(c: int, x0: int, x1: int, y0: int, y1: int) -> bool {
    exists|xi: int, yi: int| x0 <= xi < x1 && y0 <= yi < y1 && grid_index(xi, yi) == c
}

/// `tiles` with every cell of the rectangle set to `t`.
pub open spec fn filled(tiles: Seq<TileIndex>, x0: int, x1: int, y0: int, y1: int, t: TileIndex) -> Seq<
    TileIndex,
> {
    Seq::new(tiles.len(), |c: int| if in_rect(c, x0, x1, y0, y1) { t } else { tiles[c] })
}

/// `attributes` with the subpalette of every cell of the rectangle set to `s`.
pub open spec fn painted(
    attributes: Seq<TileAttributes>,
    x0: int,
    x1: int,
    y0: int,
    y1: int,
    s: Subpalette,
) -> Seq<TileAttributes> {
    Seq::new(
        attributes.len(),
        |c: int|
            if in_rect(c, x0, x1, y0, y1) {
                attributes[c].palette_set(s)
            } else {
                attributes[c]
            },
    )
}

pub proof fn lemma_in_rect_extend_x(c: int, x0: int, x1: int, y0: int, y1: int, xi: int, yi: int)
    requires
        x0 <= xi,
        y0 <= yi,
    ensures
        (in_rect(c, x0, x1, y0, yi) || in_rect(c, x0, xi + 1, yi, yi + 1)) <==> (in_rect(
            c,
            x0,
            x1,
            y0,
            yi,
        ) || in_rect(c, x0, xi, yi, yi + 1) || c == grid_index(xi, yi)),
{
    if in_rect(c, x0, xi + 1, yi, yi + 1) {
        let (a, b) = choose|a: int, b: int|
            x0 <= a < xi + 1 && yi <= b < yi + 1 && grid_index(a, b) == c;
        if a < xi {
            assert(in_rect(c, x0, xi, yi, yi + 1));
        }
    }
    if c == grid_index(xi, yi) {
        assert(in_rect(c, x0, xi + 1, yi, yi + 1));
    }
    if in_rect(c, x0, xi, yi, yi + 1) {
        let (a, b) = choose|a: int, b: int| x0 <= a < xi && yi <= b < yi + 1 && grid_index(a, b) == c;
        assert(in_rect(c, x0, xi + 1, yi, yi + 1));
    }
}

pub proof fn lemma_in_rect_extend_y(c: int, x0: int, x1: int, y0: int, yi: int)
    requires
        y0 <= yi,
    ensures
        in_rect(c, x0, x1, y0, yi + 1) <==> (in_rect(c, x0, x1, y0, yi) || in_rect(c, x0, x1, yi, yi + 1)),
{
    if in_rect(c, x0, x1, y0, yi + 1) {
        let (a, b) = choose|a: int, b: int| x0 <= a < x1 && y0 <= b < yi + 1 && grid_index(a, b) == c;
        if b < yi {
            assert(in_rect(c, x0, x1, y0, yi));
        } else {
            assert(in_rect(c, x0, x1, yi, yi + 1));
        }
    }
    if in_rect(c, x0, x1, y0, yi) {
        let (a, b) = choose|a: int, b: int| x0 <= a < x1 && y0 <= b < yi && grid_index(a, b) == c;
        assert(in_rect(c, x0, x1, y0, yi + 1));
    }
    if in_rect(c, x0, x1, yi, yi + 1) {
        let (a, b) = choose|a: int, b: int| x0 <= a < x1 && yi <= b < yi + 1 && grid_index(a, b) == c;
        assert(in_rect(c, x0, x1, y0, yi + 1));
    }
}

/// Sets every cell of the rectangle [`x0`, `x1`) x [`y0`, `y1`) of layer `bg`
/// to tile `t`.
pub fn fill_rect_tiles(bg: usize, fc: &mut Vfc, x0: usize, x1: usize, y0: usize, y1: usize, t: TileIndex)
    requires
        bg < NUM_BG_LAYERS,
    ensures
        only_layer_changed(*old(fc), *final(fc), bg as int),
        tiles_replaced(
            old(fc).bg_layers@[bg as int],
            final(fc).bg_layers@[bg as int],
            filled(old(fc).bg_layers@[bg as int].tiles@, x0 as int, x1 as int, y0 as int, y1 as int, t),
        ),
{
    let ghost tiles0 = old(fc).bg_layers@[bg as int].tiles@;
    let mut yi: usize = y0;
    assert(filled(tiles0, x0 as int, x1 as int, y0 as int, yi as int, t) =~= tiles0);
    while yi < y1
        invariant
            bg < NUM_BG_LAYERS,
            y0 <= yi,
            yi <= y1 || yi == y0,
            tiles0 == old(fc).bg_layers@[bg as int].tiles@,
            only_layer_changed(*old(fc), *fc, bg as int),
            tiles_replaced(
                old(fc).bg_layers@[bg as int],
                fc.bg_layers@[bg as int],
                filled(tiles0, x0 as int, x1 as int, y0 as int, yi as int, t),
            ),
        decreases y1 - yi,
    {
        let mut xi: usize = x0;
        assert(filled(tiles0, x0 as int, x1 as int, y0 as int, yi as int, t) =~= Seq::new(
            tiles0.len(),
            |c: int|
                if in_rect(c, x0 as int, x1 as int, y0 as int, yi as int) || in_rect(
                    c,
                    x0 as int,
                    xi as int,
                    yi as int,
                    yi + 1,
                ) {
                    t
                } else {
                    tiles0[c]
                },
        ));
        while xi < x1
            invariant
                bg < NUM_BG_LAYERS,
                y0 <= yi < y1,
                x0 <= xi,
                xi <= x1 || xi == x0,
                tiles0 == old(fc).bg_layers@[bg as int].tiles@,
                only_layer_changed(*old(fc), *fc, bg as int),
                tiles_replaced(
                    old(fc).bg_layers@[bg as int],
                    fc.bg_layers@[bg as int],
                    Seq::new(
                        tiles0.len(),
                        |c: int|
                            if in_rect(c, x0 as int, x1 as int, y0 as int, yi as int) || in_rect(
                                c,
                                x0 as int,
                                xi as int,
                                yi as int,
                                yi + 1,
                            ) {
                                t
                            } else {
                                tiles0[c]
                            },
                    ),
                ),
            decreases x1 - xi,
        {
            let ghost before = fc.bg_layers@[bg as int].tiles@;
            poke_bg(bg, fc, xi, yi, t);
            proof {
                assert forall|c: int| 0 <= c < tiles0.len() implies #[trigger] fc.bg_layers@[bg as int].tiles@[c]
                    == (if in_rect(c, x0 as int, x1 as int, y0 as int, yi as int) || in_rect(
                    c,
                    x0 as int,
                    xi + 1,
                    yi as int,
                    yi + 1,
                ) {
                    t
                } else {
                    tiles0[c]
                }) by {
                    lemma_in_rect_extend_x(c, x0 as int, x1 as int, y0 as int, y1 as int, xi as int, yi as int);
                }
            }
            xi += 1;
            proof {
                assert(fc.bg_layers@[bg as int].tiles@ =~= Seq::new(
                    tiles0.len(),
                    |c: int|
                        if in_rect(c, x0 as int, x1 as int, y0 as int, yi as int) || in_rect(
                            c,
                            x0 as int,
                            xi as int,
                            yi as int,
                            yi + 1,
                        ) {
                            t
                        } else {
                            tiles0[c]
                        },
                ));
            }
        }
        proof {
            assert forall|c: int| 0 <= c < tiles0.len() implies (in_rect(
                c,
                x0 as int,
                x1 as int,
                y0 as int,
                yi + 1,
            ) <==> (in_rect(c, x0 as int, x1 as int, y0 as int, yi as int) || in_rect(
                c,
                x0 as int,
                xi as int,
                yi as int,
                yi + 1,
            ))) by {
                lemma_in_rect_extend_y(c, x0 as int, x1 as int, y0 as int, yi as int);
                if xi != x1 {
                    assert(!in_rect(c, x0 as int, xi as int, yi as int, yi + 1));
                    assert(!in_rect(c, x0 as int, x1 as int, yi as int, yi + 1));
                }
            }
        }
        yi += 1;
        proof {
            assert(fc.bg_layers@[bg as int].tiles@ =~= filled(tiles0, x0 as int, x1 as int, y0 as int, yi as int, t));
        }
    }
    proof {
        assert(fc.bg_layers@[bg as int].tiles@ =~= filled(tiles0, x0 as int, x1 as int, y0 as int, y1 as int, t));
    }
}

/// Sets the subpalette of every cell of the rectangle [`x0`, `x1`) x [`y0`,
/// `y1`) of layer `bg` to `t`.
pub fn paint_rect_cells(bg: usize, fc: &mut Vfc, x0: usize, x1: usize, y0: usize, y1: usize, t: Subpalette)
    requires
        bg < NUM_BG_LAYERS,
    ensures
        only_layer_changed(*old(fc), *final(fc), bg as int),
        attributes_replaced(
            old(fc).bg_layers@[bg as int],
            final(fc).bg_layers@[bg as int],
            painted(old(fc).bg_layers@[bg as int].attributes@, x0 as int, x1 as int, y0 as int, y1 as int, t),
        ),
{
    let ghost attrs0 = old(fc).bg_layers@[bg as int].attributes@;
    let mut yi: usize = y0;
    assert(painted(attrs0, x0 as int, x1 as int, y0 as int, yi as int, t) =~= attrs0);
    while yi < y1
        invariant
            bg < NUM_BG_LAYERS,
            y0 <= yi,
            yi <= y1 || yi == y0,
            attrs0 == old(fc).bg_layers@[bg as int].attributes@,
            only_layer_changed(*old(fc), *fc, bg as int),
            attributes_replaced(
                old(fc).bg_layers@[bg as int],
                fc.bg_layers@[bg as int],
                painted(attrs0, x0 as int, x1 as int, y0 as int, yi as int, t),
            ),
        decreases y1 - yi,
    {
        let mut xi: usize = x0;
        assert(painted(attrs0, x0 as int, x1 as int, y0 as int, yi as int, t) =~= Seq::new(
            attrs0.len(),
            |c: int|
                if in_rect(c, x0 as int, x1 as int, y0 as int, yi as int) || in_rect(
                    c,
                    x0 as int,
                    xi as int,
                    yi as int,
                    yi + 1,
                ) {
                    attrs0[c].palette_set(t)
                } else {
                    attrs0[c]
                },
        ));
        while xi < x1
            invariant
                bg < NUM_BG_LAYERS,
                y0 <= yi < y1,
                x0 <= xi,
                xi <= x1 || xi == x0,
                attrs0 == old(fc).bg_layers@[bg as int].attributes@,
                only_layer_changed(*old(fc), *fc, bg as int),
                attributes_replaced(
                    old(fc).bg_layers@[bg as int],
                    fc.bg_layers@[bg as int],
                    Seq::new(
                        attrs0.len(),
                        |c: int|
                            if in_rect(c, x0 as int, x1 as int, y0 as int, yi as int) || in_rect(
                                c,
                                x0 as int,
                                xi as int,
                                yi as int,
                                yi + 1,
                            ) {
                                attrs0[c].palette_set(t)
                            } else {
                                attrs0[c]
                            },
                    ),
                ),
            decreases x1 - xi,
        {
            let ghost before = fc.bg_layers@[bg as int].attributes@;
            poke_bg_palette(bg, fc, xi, yi, t);
            proof {
                assert forall|c: int| 0 <= c < attrs0.len() implies #[trigger] fc.bg_layers@[bg as int].attributes@[c]
                    == (if in_rect(c, x0 as int, x1 as int, y0 as int, yi as int) || in_rect(
                    c,
                    x0 as int,
                    xi + 1,
                    yi as int,
                    yi + 1,
                ) {
                    attrs0[c].palette_set(t)
                } else {
                    attrs0[c]
                }) by {
                    attrs0[c].lemma_palette_set_idempotent(t);
                    lemma_in_rect_extend_x(c, x0 as int, x1 as int, y0 as int, y1 as int, xi as int, yi as int);
                }
            }
            xi += 1;
            proof {
                assert(fc.bg_layers@[bg as int].attributes@ =~= Seq::new(
                    attrs0.len(),
                    |c: int|
                        if in_rect(c, x0 as int, x1 as int, y0 as int, yi as int) || in_rect(
                            c,
                            x0 as int,
                            xi as int,
                            yi as int,
                            yi + 1,
                        ) {
                            attrs0[c].palette_set(t)
                        } else {
                            attrs0[c]
                        },
                ));
            }
        }
        proof {
            assert forall|c: int| 0 <= c < attrs0.len() implies (in_rect(
                c,
                x0 as int,
                x1 as int,
                y0 as int,
                yi + 1,
            ) <==> (in_rect(c, x0 as int, x1 as int, y0 as int, yi as int) || in_rect(
                c,
                x0 as int,
                xi as int,
                yi as int,
                yi + 1,
            ))) by {
                lemma_in_rect_extend_y(c, x0 as int, x1 as int, y0 as int, yi as int);
                if xi != x1 {
                    assert(!in_rect(c, x0 as int, xi as int, yi as int, yi + 1));
                    assert(!in_rect(c, x0 as int, x1 as int, yi as int, yi + 1));
                }
            }
        }
        yi += 1;
        proof {
            assert(fc.bg_layers@[bg as int].attributes@ =~= painted(attrs0, x0 as int, x1 as int, y0 as int, yi as int, t));
        }
    }
    proof {
        assert(fc.bg_layers@[bg as int].attributes@ =~= painted(attrs0, x0 as int, x1 as int, y0 as int, y1 as int, t));
    }
}

/// Sets the subpalette of every cell of the `w` x `h` rectangle from (`x`,
/// `y`) of layer `bg`. An end coordinate past `usize::MAX` wraps, which leaves
/// that axis empty.
pub fn paint_rect_palette(bg: usize, fc: &mut Vfc, x: usize, y: usize, w: usize, h: usize, palette: Subpalette)
    requires
        bg < NUM_BG_LAYERS,
    ensures
        only_layer_changed(*old(fc), *final(fc), bg as int),
        attributes_replaced(
            old(fc).bg_layers@[bg as int],
            final(fc).bg_layers@[bg as int],
            painted(
                old(fc).bg_layers@[bg as int].attributes@,
                x as int,
                x.wrapping_add(w) as int,
                y as int,
                y.wrapping_add(h) as int,
                palette,
            ),
        ),
{
    paint_rect_cells(bg, fc, x, x.wrapping_add(w), y, y.wrapping_add(h), palette)
}

/// Sets every cell of [`x`, `w`) x [`y`, `h`) of layer `bg` to tile 0: `w`
/// and `h` are the end coordinates.
pub fn clear_rect_tiles(bg: usize, fc: &mut Vfc, x: usize, y: usize, w: usize, h: usize)
    requires
        bg < NUM_BG_LAYERS,
    ensures
        only_layer_changed(*old(fc), *final(fc), bg as int),
        tiles_replaced(
            old(fc).bg_layers@[bg as int],
            final(fc).bg_layers@[bg as int],
            filled(old(fc).bg_layers@[bg as int].tiles@, x as int, w as int, y as int, h as int, TileIndex(0)),
        ),
{
    fill_rect_tiles(bg, fc, x, w, y, h, TileIndex(0))
}

/// Sets the subpalette of every cell of [`x`, `w`) x [`y`, `h`) of layer `bg`
/// to 0: `w` and `h` are the end coordinates.
pub fn clear_rect_palette(bg: usize, fc: &mut Vfc, x: usize, y: usize, w: usize, h: usize)
    requires
        bg < NUM_BG_LAYERS,
    ensures
        only_layer_changed(*old(fc), *final(fc), bg as int),
        attributes_replaced(
            old(fc).bg_layers@[bg as int],
            final(fc).bg_layers@[bg as int],
            painted(old(fc).bg_layers@[bg as int].attributes@, x as int, w as int, y as int, h as int, Subpalette(0)),
        ),
{
    paint_rect_cells(bg, fc, x, w, y, h, Subpalette::new(0))
}

/// Every cell is in the full 32x32 rectangle.
pub proof fn lemma_full_rect(c: int)
    requires
        0 <= c < 1024,
    ensures
        in_rect(c, 0, 32, 0, 32),
{
    assert(grid_index(c % 32, c / 32) == c);
}

/// Sets every cell of layer `bg` to tile 0.
pub fn clear_bg_tiles(bg: usize, fc: &mut Vfc)
    requires
        bg < NUM_BG_LAYERS,
    ensures
        only_layer_changed(*old(fc), *final(fc), bg as int),
        forall|c: int| 0 <= c < 1024 ==> #[trigger] final(fc).bg_layers@[bg as int].tiles@[c] == TileIndex(0),
        final(fc).bg_layers@[bg as int].attributes == old(fc).bg_layers@[bg as int].attributes,
{
    clear_rect_tiles(bg, fc, 0, 0, BG_WIDTH, BG_HEIGHT);
    assert forall|c: int| 0 <= c < 1024 implies #[trigger] fc.bg_layers@[bg as int].tiles@[c] == TileIndex(0) by {
        lemma_full_rect(c);
    }
}

/// Sets the subpalette of every cell of layer `bg` to 0.
pub fn clear_bg_palette(bg: usize, fc: &mut Vfc)
    requires
        bg < NUM_BG_LAYERS,
    ensures
        only_layer_changed(*old(fc), *final(fc), bg as int),
        forall|c: int|
            0 <= c < 1024 ==> #[trigger] final(fc).bg_layers@[bg as int].attributes@[c] == old(
                fc,
            ).bg_layers@[bg as int].attributes@[c].palette_set(Subpalette(0)),
        final(fc).bg_layers@[bg as int].tiles == old(fc).bg_layers@[bg as int].tiles,
{
    clear_rect_palette(bg, fc, 0, 0, BG_WIDTH, BG_HEIGHT);
    assert forall|c: int| 0 <= c < 1024 implies #[trigger] fc.bg_layers@[bg as int].attributes@[c] == old(
        fc,
    ).bg_layers@[bg as int].attributes@[c].palette_set(Subpalette(0)) by {
        lemma_full_rect(c);
    }
}

/// Sets every cell of layer `bg` to tile 0.
pub fn clear_bg(bg: usize, fc: &mut Vfc)
    requires
        bg < NUM_BG_LAYERS,
    ensures
        only_layer_changed(*old(fc), *final(fc), bg as int),
        forall|c: int| 0 <= c < 1024 ==> #[trigger] final(fc).bg_layers@[bg as int].tiles@[c] == TileIndex(0),
        final(fc).bg_layers@[bg as int].attributes == old(fc).bg_layers@[bg as int].attributes,
{
    clear_bg_tiles(bg, fc)
}

/// Sets every cell of row `line` (modulo 32) of layer `bg` to tile 0.
pub fn clear_line(bg: usize, fc: &mut Vfc, line: usize)
    requires
        bg < NUM_BG_LAYERS,
    ensures
        only_layer_changed(*old(fc), *final(fc), bg as int),
        tiles_replaced(
            old(fc).bg_layers@[bg as int],
            final(fc).bg_layers@[bg as int],
            filled(
                old(fc).bg_layers@[bg as int].tiles@,
                0,
                32,
                (line % 32) as int,
                (line % 32) + 1,
                TileIndex(0),
            ),
        ),
{
    let row = line % BG_HEIGHT;
    fill_rect_tiles(bg, fc, 0, BG_WIDTH, row, row + 1, TileIndex(0))
}

/// Hides every sprite, keeping its other fields.
pub fn clear_sprites(fc: &mut Vfc)
    ensures
        forall|i: int|
            0 <= i < NUM_OAM_ENTRIES ==> #[trigger] final(fc).oam.0@[i] == (OamEntry {
                y: SCREEN_HEIGHT as u8,
                ..old(fc).oam.0@[i]
            }),
        final(fc).framebuffer == old(fc).framebuffer,
        final(fc).oam_hidden == old(fc).oam_hidden,
        final(fc).palette == old(fc).palette,
        final(fc).background_color == old(fc).background_color,
        final(fc).tileset == old(fc).tileset,
        final(fc).bg_layers == old(fc).bg_layers,
{
    let mut i: usize = 0;
    while i < NUM_OAM_ENTRIES
        invariant
            i <= NUM_OAM_ENTRIES,
            forall|k: int|
                0 <= k < NUM_OAM_ENTRIES ==> #[trigger] fc.oam.0@[k] == if k < i {
                    OamEntry { y: SCREEN_HEIGHT as u8, ..old(fc).oam.0@[k] }
                } else {
                    old(fc).oam.0@[k]
                },
            fc.framebuffer == old(fc).framebuffer,
            fc.oam_hidden == old(fc).oam_hidden,
            fc.palette == old(fc).palette,
            fc.background_color == old(fc).background_color,
            fc.tileset == old(fc).tileset,
            fc.bg_layers == old(fc).bg_layers,
        decreases NUM_OAM_ENTRIES - i,
    {
        fc.oam.0[i].hide_sprite();
        i += 1;
    }
}

} // verus!
