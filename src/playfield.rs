use vstd::prelude::*;

use crate::color::Subpalette;
use crate::constants::NUM_BG_LAYERS;
use crate::engine::Vfc;
use crate::fc::{
    attributes_replaced, fill_rect_tiles, filled, in_rect, paint_rect_cells, painted, lemma_in_rect_extend_x,
    lemma_in_rect_extend_y, only_layer_changed, poke_bg, poke_bg_palette, poke_bg_rotation,
    tiles_replaced,
};
use crate::layer::grid_index;
use crate::tile::{subpalette_bits, TileAttributes, TileIndex};

verus! {

pub const FIELD_X: usize = 7;

pub const FIELD_Y: usize = 21;

pub const FIELD_WIDTH: usize = 10;

pub const FIELD_HEIGHT: usize = 31;

pub const CEILING_HEIGHT: usize = 15;

pub const TOP_VISIBLE_ROW: usize = 12;

pub const SCORE_Y: usize = 32;

pub const TILE_EMPTY: u8 = 0x00;

pub const TILE_CEILING: u8 = 0x01;

pub const TILE_WALL: u8 = 0x7f;

pub const TILE_BLOCK: u8 = 0x80;

pub const TILE_SHADOW_OFFSET: u8 = 0x84;

pub const TILE_PIECE_ICON: u8 = 0x08;

pub const TILE_ROW_CLEAR: u8 = 0x18;

pub const TILE_GAME_OVER_BLOCK: u8 = 0x20;

/// Sets the tile at cell (`x`, `y`) of the game layer, layer 0.
pub fn poke_game_layer(fc: &mut Vfc, x: usize, y: usize, tile_index: TileIndex)
    ensures
        only_layer_changed(*old(fc), *final(fc), 0),
        tiles_replaced(
            old(fc).bg_layers@[0],
            final(fc).bg_layers@[0],
            old(fc).bg_layers@[0].tiles@.update(grid_index(x as int, y as int), tile_index),
        ),
{
    poke_bg(0, fc, x, y, tile_index)
}

/// Sets the tile at cell (`x`, `y`) of the menu layer, layer 1.
pub fn poke_menu_layer(fc: &mut Vfc, x: usize, y: usize, tile_index: TileIndex)
    ensures
        only_layer_changed(*old(fc), *final(fc), 1),
        tiles_replaced(
            old(fc).bg_layers@[1],
            final(fc).bg_layers@[1],
            old(fc).bg_layers@[1].tiles@.update(grid_index(x as int, y as int), tile_index),
        ),
{
    poke_bg(1, fc, x, y, tile_index)
}

/// Sets the subpalette of cell (`x`, `y`) of the game layer.
pub fn poke_game_layer_palette(fc: &mut Vfc, x: usize, y: usize, palette_index: Subpalette)
    ensures
        only_layer_changed(*old(fc), *final(fc), 0),
        attributes_replaced(
            old(fc).bg_layers@[0],
            final(fc).bg_layers@[0],
            old(fc).bg_layers@[0].attributes@.update(
                grid_index(x as int, y as int),
                old(fc).bg_layers@[0].attributes@[grid_index(x as int, y as int)].palette_set(palette_index),
            ),
        ),
{
    poke_bg_palette(0, fc, x, y, palette_index)
}

/// The subpalette of cell (`x`, `y`) of layer `bg`.
pub fn peek_bg_palette(bg: usize, fc: &Vfc, x: usize, y: usize) -> (s: Subpalette)
    requires
        bg < 2,
    ensures
        s.0 == subpalette_bits(fc.bg_layers@[bg as int].attributes@[grid_index(x as int, y as int)].bits()),
{
    let a: &TileAttributes = &fc.bg_layers[bg].attributes[(y % 32) * 32 + x % 32];
    a.get_palette()
}

/// The subpalette of cell (`x`, `y`) of the game layer.
pub fn peek_game_layer_palette(fc: &Vfc, x: usize, y: usize) -> (s: Subpalette)
    ensures
        s.0 == subpalette_bits(fc.bg_layers@[0].attributes@[grid_index(x as int, y as int)].bits()),
{
    peek_bg_palette(0, fc, x, y)
}

/// Empties the text layer, layer 1, over the playfield and its border:
/// columns 6 to 17 of every row.
pub fn clear_text_layer(fc: &mut Vfc)
    ensures
        only_layer_changed(*old(fc), *final(fc), 1),
        tiles_replaced(
            old(fc).bg_layers@[1],
            final(fc).bg_layers@[1],
            filled(
                old(fc).bg_layers@[1].tiles@,
                (FIELD_X - 1) as int,
                (FIELD_X + FIELD_WIDTH + 1) as int,
                (FIELD_Y - 1) as int,
                (FIELD_Y + FIELD_HEIGHT + 1) as int,
                TileIndex(TILE_EMPTY),
            ),
        ),
{
    fill_rect_tiles(
        1,
        fc,
        FIELD_X - 1,
        FIELD_X + FIELD_WIDTH + 1,
        FIELD_Y - 1,
        FIELD_Y + FIELD_HEIGHT + 1,
        TileIndex(TILE_EMPTY),
    )
}

/// The flip bits that the diagonal stripe pattern from corner (`x0`, `y0`) gives
/// cell `c`: its column and row offsets from the corner, each taken modulo
/// 32, summed, modulo 8.
pub open spec fn stripe_rotation(c: int, x0: int, y0: int) -> u8 {
    ((((c % 32) - x0) % 32 + ((c / 32) - y0) % 32) % 8) as u8
}

/// `attributes` with the striped flip bits from corner (`x0`, `y0`) set in
/// every cell of the rectangle.
pub open spec fn striped(attributes: Seq<TileAttributes>, x0: int, x1: int, y0: int, y1: int) -> Seq<
    TileAttributes,
> {
    Seq::new(
        attributes.len(),
        |c: int|
            if in_rect(c, x0, x1, y0, y1) {
                attributes[c].rotation_set(stripe_rotation(c, x0, y0))
            } else {
                attributes[c]
            },
    )
}

proof fn lemma_stripe_rotation(x: int, y: int, x0: int, y0: int)
    requires
        0 <= x0 <= x < x0 + 32,
        0 <= y0 <= y < y0 + 32,
    ensures
        stripe_rotation(grid_index(x, y), x0, y0) == ((x - x0) + (y - y0)) % 8,
{
    let c = grid_index(x, y);
    assert(c % 32 == x % 32 && c / 32 == y % 32) by {
        vstd::arithmetic::div_mod::lemma_fundamental_div_mod_converse(c, 32, y % 32, x % 32);
    }
    assert((x % 32 - x0) % 32 == x - x0) by {
        vstd::arithmetic::div_mod::lemma_fundamental_div_mod(x, 32);
        vstd::arithmetic::div_mod::lemma_mod_add_multiples_vanish(x - x0, 32);
        vstd::arithmetic::div_mod::lemma_mod_multiples_vanish(x / 32, x % 32 - x0, 32);
        vstd::arithmetic::div_mod::lemma_small_mod((x - x0) as nat, 32);
    }
    assert((y % 32 - y0) % 32 == y - y0) by {
        vstd::arithmetic::div_mod::lemma_fundamental_div_mod(y, 32);
        vstd::arithmetic::div_mod::lemma_mod_multiples_vanish(y / 32, y % 32 - y0, 32);
        vstd::arithmetic::div_mod::lemma_small_mod((y - y0) as nat, 32);
    }
}

/// Gives the cells of the rectangle [`x0`, `x1`) x [`y0`, `y1`) of layer `bg`
/// a diagonal stripe pattern of flip bits: cell (`x`, `y`) gets
/// `((x - x0) + (y - y0)) % 8`.
pub fn stripe_rect_rotation(bg: usize, fc: &mut Vfc, x0: usize, x1: usize, y0: usize, y1: usize)
    requires
        bg < NUM_BG_LAYERS,
        x1 <= x0 + 32,
        y1 <= y0 + 32,
    ensures
        only_layer_changed(*old(fc), *final(fc), bg as int),
        attributes_replaced(
            old(fc).bg_layers@[bg as int],
            final(fc).bg_layers@[bg as int],
            striped(old(fc).bg_layers@[bg as int].attributes@, x0 as int, x1 as int, y0 as int, y1 as int)
        ),
{
    let ghost attrs0 = old(fc).bg_layers@[bg as int].attributes@;
    let mut yi: usize = y0;
    assert(striped(attrs0, x0 as int, x1 as int, y0 as int, yi as int) =~= attrs0);
    while yi < y1
        invariant
            bg < NUM_BG_LAYERS,
            x1 <= x0 + 32,
            y1 <= y0 + 32,
            y0 <= yi,
            yi <= y1 || yi == y0,
            attrs0 == old(fc).bg_layers@[bg as int].attributes@,
            only_layer_changed(*old(fc), *fc, bg as int),
            attributes_replaced(
                old(fc).bg_layers@[bg as int],
                fc.bg_layers@[bg as int],
                striped(attrs0, x0 as int, x1 as int, y0 as int, yi as int)
            ),
        decreases y1 - yi,
    {
        let mut xi: usize = x0;
        assert(striped(attrs0, x0 as int, x1 as int, y0 as int, yi as int) =~= Seq::new(
            attrs0.len(),
            |c: int|
                if in_rect(c, x0 as int, x1 as int, y0 as int, yi as int) || in_rect(
                    c,
                    x0 as int,
                    xi as int,
                    yi as int,
                    yi + 1,
                ) {
                    attrs0[c].rotation_set(stripe_rotation(c, x0 as int, y0 as int))
                } else {
                    attrs0[c]
                },
        ));
        while xi < x1
            invariant
                bg < NUM_BG_LAYERS,
                x1 <= x0 + 32,
                y1 <= y0 + 32,
                y0 <= yi < y1,
                x0 <= xi,
                xi <= x1 || xi == x0,
                attrs0 == old(fc).bg_layers@[bg as int].attributes@,
                only_layer_changed(*old(fc), *fc, bg as int),
                attributes_replaced(
                    old(fc).bg_layers@[bg as int],
                    fc.bg_layers@[bg as int],
                    Seq::new(
                        attrs0.len(),
                        |c: int|
                            if in_rect(c, x0 as int, x1 as int, y0 as int, yi as int) || in_rect(
                                c,
                                x0 as int,
                                xi as int,
                                yi as int,
                                yi + 1,
                            ) {
                                attrs0[c].rotation_set(stripe_rotation(c, x0 as int, y0 as int))
                            } else {
                                attrs0[c]
                            },
                    ),
                ),
            decreases x1 - xi,
        {
            let ghost before = fc.bg_layers@[bg as int].attributes@;
            let r = ((xi - x0) + (yi - y0)) % 8;
            proof {
                lemma_stripe_rotation(xi as int, yi as int, x0 as int, y0 as int);
            }
            poke_bg_rotation(bg, fc, xi, yi, r as u8);
            proof {
                assert forall|c: int| 0 <= c < attrs0.len() implies #[trigger] fc.bg_layers@[bg as int].attributes@[c]
                    == (if in_rect(c, x0 as int, x1 as int, y0 as int, yi as int) || in_rect(
                    c,
                    x0 as int,
                    xi + 1,
                    yi as int,
                    yi + 1,
                ) {
                    attrs0[c].rotation_set(stripe_rotation(c, x0 as int, y0 as int))
                } else {
                    attrs0[c]
                }) by {
                    attrs0[c].lemma_rotation_set_idempotent(stripe_rotation(c, x0 as int, y0 as int));
                    lemma_in_rect_extend_x(c, x0 as int, x1 as int, y0 as int, y1 as int, xi as int, yi as int);
                }
            }
            xi += 1;
            proof {
                assert(fc.bg_layers@[bg as int].attributes@ =~= Seq::new(
                    attrs0.len(),
                    |c: int|
                        if in_rect(c, x0 as int, x1 as int, y0 as int, yi as int) || in_rect(
                            c,
                            x0 as int,
                            xi as int,
                            yi as int,
                            yi + 1,
                        ) {
                            attrs0[c].rotation_set(stripe_rotation(c, x0 as int, y0 as int))
                        } else {
                            attrs0[c]
                        },
                ));
            }
        }
        proof {
            assert forall|c: int| 0 <= c < attrs0.len() implies (in_rect(
                c,
                x0 as int,
                x1 as int,
                y0 as int,
                yi + 1,
            ) <==> (in_rect(c, x0 as int, x1 as int, y0 as int, yi as int) || in_rect(
                c,
                x0 as int,
                xi as int,
                yi as int,
                yi + 1,
            ))) by {
                lemma_in_rect_extend_y(c, x0 as int, x1 as int, y0 as int, yi as int);
                if xi != x1 {
                    assert(!in_rect(c, x0 as int, xi as int, yi as int, yi + 1));
                    assert(!in_rect(c, x0 as int, x1 as int, yi as int, yi + 1));
                }
            }
        }
        yi += 1;
        proof {
            assert(fc.bg_layers@[bg as int].attributes@ =~= striped(attrs0, x0 as int, x1 as int, y0 as int, yi as int));
        }
    }
    proof {
        assert(fc.bg_layers@[bg as int].attributes@ =~= striped(attrs0, x0 as int, x1 as int, y0 as int, y1 as int));
    }
}

/// The game layer's tiles after the playfield is cleared: the field is
/// empty but for its ceiling row.
pub open spec fn cleared_field_tiles(tiles: Seq<TileIndex>) -> Seq<TileIndex> {
    let (x0, x1) = (FIELD_X as int, (FIELD_X + FIELD_WIDTH) as int);
    let ceiling = (FIELD_Y + CEILING_HEIGHT) as int;
    filled(
        filled(tiles, x0, x1, FIELD_Y as int, (FIELD_Y + FIELD_HEIGHT) as int, TileIndex(TILE_EMPTY)),
        x0,
        x1,
        ceiling,
        ceiling + 1,
        TileIndex(TILE_CEILING),
    )
}

/// The game layer's attributes after the playfield is cleared: subpalette 0
/// and the striped flip bits over the field.
pub open spec fn cleared_field_attributes(attributes: Seq<TileAttributes>) -> Seq<TileAttributes> {
    let (x0, x1) = (FIELD_X as int, (FIELD_X + FIELD_WIDTH) as int);
    let (y0, y1) = (FIELD_Y as int, (FIELD_Y + FIELD_HEIGHT) as int);
    let ceiling = (FIELD_Y + CEILING_HEIGHT) as int;
    painted(
        striped(painted(attributes, x0, x1, y0, y1, Subpalette(0)), x0, x1, y0, y1),
        x0,
        x1,
        ceiling,
        ceiling + 1,
        Subpalette(0),
    )
}

/// `b` is `a` with only the two layers' grids possibly changed.
pub open spec fn only_grids_changed(a: Vfc, b: Vfc) -> bool {
    &&& a.framebuffer == b.framebuffer
    &&& a.oam == b.oam
    &&& a.oam_hidden == b.oam_hidden
    &&& a.palette == b.palette
    &&& a.background_color == b.background_color
    &&& a.tileset == b.tileset
    &&& forall|k: int|
        0 <= k < NUM_BG_LAYERS ==> #[trigger] a.bg_layers@[k].x == b.bg_layers@[k].x && a.bg_layers@[k].y
            == b.bg_layers@[k].y && a.bg_layers@[k].hidden == b.bg_layers@[k].hidden
}

/// Clears the playfield: empty cells with subpalette 0 and striped flip
/// bits, the ceiling row, and the text layer's row above the visible field.
pub fn clear_playfield(fc: &mut Vfc)
    ensures
        only_grids_changed(*old(fc), *final(fc)),
        final(fc).bg_layers@[0].tiles@ == cleared_field_tiles(old(fc).bg_layers@[0].tiles@),
        final(fc).bg_layers@[0].attributes@ == cleared_field_attributes(old(fc).bg_layers@[0].attributes@),
        final(fc).bg_layers@[1].tiles@ == filled(
            old(fc).bg_layers@[1].tiles@,
            FIELD_X as int,
            (FIELD_X + FIELD_WIDTH) as int,
            (FIELD_Y + TOP_VISIBLE_ROW) as int,
            (FIELD_Y + TOP_VISIBLE_ROW + 1) as int,
            TileIndex(TILE_EMPTY),
        ),
        final(fc).bg_layers@[1].attributes == old(fc).bg_layers@[1].attributes,
{
    let x0 = FIELD_X;
    let x1 = FIELD_X + FIELD_WIDTH;
    let y0 = FIELD_Y;
    let y1 = FIELD_Y + FIELD_HEIGHT;
    let ceiling = FIELD_Y + CEILING_HEIGHT;
    fill_rect_tiles(0, fc, x0, x1, y0, y1, TileIndex(TILE_EMPTY));
    paint_rect_cells(0, fc, x0, x1, y0, y1, Subpalette::new(0));
    stripe_rect_rotation(0, fc, x0, x1, y0, y1);
    fill_rect_tiles(0, fc, x0, x1, ceiling, ceiling + 1, TileIndex(TILE_CEILING));
    paint_rect_cells(0, fc, x0, x1, ceiling, ceiling + 1, Subpalette::new(0));
    let top = FIELD_Y + TOP_VISIBLE_ROW;
    fill_rect_tiles(1, fc, x0, x1, top, top + 1, TileIndex(TILE_EMPTY));
}

/// Draws the playfield: wall columns with subpalette 0 on both sides, a
/// cleared field, and a wall floor below it.
pub fn init_playfield(fc: &mut Vfc)
    ensures
        only_grids_changed(*old(fc), *final(fc)),
        final(fc).bg_layers@[0].tiles@ == filled(
            cleared_field_tiles(
                filled(
                    filled(
                        old(fc).bg_layers@[0].tiles@,
                        (FIELD_X - 1) as int,
                        FIELD_X as int,
                        FIELD_Y as int,
                        (FIELD_Y + FIELD_HEIGHT + 1) as int,
                        TileIndex(TILE_WALL),
                    ),
                    (FIELD_X + FIELD_WIDTH) as int,
                    (FIELD_X + FIELD_WIDTH + 1) as int,
                    FIELD_Y as int,
                    (FIELD_Y + FIELD_HEIGHT + 1) as int,
                    TileIndex(TILE_WALL),
                ),
            ),
            FIELD_X as int,
            (FIELD_X + FIELD_WIDTH) as int,
            (FIELD_Y + FIELD_HEIGHT) as int,
            (FIELD_Y + FIELD_HEIGHT + 1) as int,
            TileIndex(TILE_WALL),
        ),
        final(fc).bg_layers@[0].attributes@ == cleared_field_attributes(
            painted(
                painted(
                    old(fc).bg_layers@[0].attributes@,
                    (FIELD_X - 1) as int,
                    FIELD_X as int,
                    FIELD_Y as int,
                    (FIELD_Y + FIELD_HEIGHT + 1) as int,
                    Subpalette(0),
                ),
                (FIELD_X + FIELD_WIDTH) as int,
                (FIELD_X + FIELD_WIDTH + 1) as int,
                FIELD_Y as int,
                (FIELD_Y + FIELD_HEIGHT + 1) as int,
                Subpalette(0),
            ),
        ),
        final(fc).bg_layers@[1].tiles@ == filled(
            old(fc).bg_layers@[1].tiles@,
            FIELD_X as int,
            (FIELD_X + FIELD_WIDTH) as int,
            (FIELD_Y + TOP_VISIBLE_ROW) as int,
            (FIELD_Y + TOP_VISIBLE_ROW + 1) as int,
            TileIndex(TILE_EMPTY),
        ),
        final(fc).bg_layers@[1].attributes == old(fc).bg_layers@[1].attributes,
{
    let left_x = FIELD_X - 1;
    let right_x = FIELD_X + FIELD_WIDTH;
    let y1 = FIELD_Y + FIELD_HEIGHT + 1;
    fill_rect_tiles(0, fc, left_x, left_x + 1, FIELD_Y, y1, TileIndex(TILE_WALL));
    fill_rect_tiles(0, fc, right_x, right_x + 1, FIELD_Y, y1, TileIndex(TILE_WALL));
    paint_rect_cells(0, fc, left_x, left_x + 1, FIELD_Y, y1, Subpalette::new(0));
    paint_rect_cells(0, fc, right_x, right_x + 1, FIELD_Y, y1, Subpalette::new(0));
    let ghost walled = *fc;
    assert(only_grids_changed(*old(fc), walled)) by {
        assert(walled.bg_layers@[1] == old(fc).bg_layers@[1]);
    }
    clear_playfield(fc);
    let floor = FIELD_Y + FIELD_HEIGHT;
    let ghost cleared = *fc;
    fill_rect_tiles(0, fc, FIELD_X, FIELD_X + FIELD_WIDTH, floor, floor + 1, TileIndex(TILE_WALL));
    assert(fc.bg_layers@[1] == cleared.bg_layers@[1]);
    assert(fc.bg_layers@[0].x == cleared.bg_layers@[0].x);
    assert(walled.bg_layers@[0].x == cleared.bg_layers@[0].x);
    assert(walled.bg_layers@[1].x == cleared.bg_layers@[1].x);
}

} // verus!
