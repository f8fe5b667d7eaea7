use vfc::color::Subpalette;
use vfc::engine::Vfc;
use vfc::fc::{
    clear_bg, clear_bg_palette, clear_bg_tiles, clear_line, clear_rect_palette, clear_rect_tiles,
    clear_sprites, draw_text, get_index_from_coords, paint_rect_palette, peek_bg, peek_game_layer,
    peek_main_bg, poke_aux_bg, poke_bg, poke_bg_palette, poke_bg_rotation, poke_main_bg,
    poke_main_rotation,
};
use vfc::oam::{OamEntry, OamIndex};
use vfc::playfield::{
    clear_text_layer, init_playfield, peek_bg_palette, peek_game_layer_palette, poke_game_layer,
    poke_game_layer_palette, poke_menu_layer, TILE_CEILING, TILE_EMPTY, TILE_WALL,
};
use vfc::tile::{TileAttributes, TileIndex};

fn subpalette_at(fc: &Vfc, bg: usize, x: usize, y: usize) -> u8 {
    *fc.bg_layers[bg].attributes[get_index_from_coords(x, y)].get_palette().get()
}

#[test]
fn cell_coordinates_wrap_at_32() {
    assert_eq!(get_index_from_coords(0, 0), 0);
    assert_eq!(get_index_from_coords(3, 2), 67);
    assert_eq!(get_index_from_coords(35, 34), 67);
}

#[test]
fn poke_and_peek() {
    let mut fc = Box::new(Vfc::new());
    poke_bg(1, &mut fc, 4, 5, TileIndex(9));
    assert_eq!(peek_bg(1, &fc, 4, 5), TileIndex(9));
    assert_eq!(peek_bg(1, &fc, 36, 37), TileIndex(9));
    assert_eq!(peek_bg(0, &fc, 4, 5), TileIndex(0));
    poke_main_bg(&mut fc, 1, 1, TileIndex(3));
    assert_eq!(peek_main_bg(&fc, 1, 1), TileIndex(3));
    assert_eq!(peek_game_layer(&fc, 1, 1), TileIndex(3));
    poke_aux_bg(&mut fc, 2, 2, TileIndex(4));
    assert_eq!(peek_bg(1, &fc, 2, 2), TileIndex(4));
    poke_game_layer(&mut fc, 6, 6, TileIndex(5));
    assert_eq!(peek_bg(0, &fc, 6, 6), TileIndex(5));
    poke_menu_layer(&mut fc, 6, 6, TileIndex(7));
    assert_eq!(peek_bg(1, &fc, 6, 6), TileIndex(7));
}

#[test]
fn poke_attributes() {
    let mut fc = Box::new(Vfc::new());
    poke_bg_palette(0, &mut fc, 3, 3, Subpalette::new(6));
    poke_bg_rotation(0, &mut fc, 3, 3, 0b011);
    let a = fc.bg_layers[0].attributes[get_index_from_coords(3, 3)];
    assert_eq!(*a.get_palette().get(), 6);
    assert_eq!(a.get_rotation(), 3);
    poke_main_rotation(&mut fc, 3, 3, 0b100);
    assert_eq!(fc.bg_layers[0].attributes[get_index_from_coords(3, 3)].get_rotation(), 4);
    assert_eq!(*peek_bg_palette(0, &fc, 3, 3).get(), 6);
    poke_game_layer_palette(&mut fc, 3, 3, Subpalette::new(2));
    assert_eq!(*peek_game_layer_palette(&fc, 3, 3).get(), 2);
}

#[test]
fn text_is_written_as_shifted_bytes() {
    let mut fc = Box::new(Vfc::new());
    poke_bg_palette(1, &mut fc, 3, 2, Subpalette::new(5));
    draw_text(1, &mut fc, 2, 2, "Hi!");
    assert_eq!(peek_bg(1, &fc, 2, 2), TileIndex(b'H' + 32));
    assert_eq!(peek_bg(1, &fc, 3, 2), TileIndex(b'i' + 32));
    assert_eq!(peek_bg(1, &fc, 4, 2), TileIndex(b'!' + 32));
    assert_eq!(peek_bg(1, &fc, 5, 2), TileIndex(0));
    assert_eq!(subpalette_at(&fc, 1, 3, 2), 0);
}

#[test]
fn long_text_wraps_around_the_row() {
    let mut fc = Box::new(Vfc::new());
    let text = "ABCDEFGHIJKLMNOPQRSTUVWXYZ0123456789";
    draw_text(0, &mut fc, 0, 0, text);
    // the 33rd byte lands on column 0 again
    assert_eq!(peek_bg(0, &fc, 0, 0), TileIndex(b'6' + 32));
    assert_eq!(peek_bg(0, &fc, 31, 0), TileIndex(b'5' + 32));
}

#[test]
fn rectangles_use_end_coordinates() {
    let mut fc = Box::new(Vfc::new());
    for y in 0..32 {
        for x in 0..32 {
            poke_bg(0, &mut fc, x, y, TileIndex(1));
            poke_bg_palette(0, &mut fc, x, y, Subpalette::new(3));
        }
    }
    clear_rect_tiles(0, &mut fc, 2, 3, 4, 5);
    assert_eq!(peek_bg(0, &fc, 2, 3), TileIndex(0));
    assert_eq!(peek_bg(0, &fc, 3, 4), TileIndex(0));
    assert_eq!(peek_bg(0, &fc, 4, 4), TileIndex(1));
    assert_eq!(peek_bg(0, &fc, 3, 5), TileIndex(1));
    assert_eq!(peek_bg(0, &fc, 1, 3), TileIndex(1));
    clear_rect_palette(0, &mut fc, 2, 3, 4, 5);
    assert_eq!(subpalette_at(&fc, 0, 3, 4), 0);
    assert_eq!(subpalette_at(&fc, 0, 4, 4), 3);
    // an end before the start leaves the rectangle empty
    clear_rect_tiles(0, &mut fc, 10, 10, 5, 20);
    assert_eq!(peek_bg(0, &fc, 10, 10), TileIndex(1));
}

#[test]
fn paint_uses_width_and_height() {
    let mut fc = Box::new(Vfc::new());
    paint_rect_palette(1, &mut fc, 30, 4, 4, 2, Subpalette::new(7));
    assert_eq!(subpalette_at(&fc, 1, 30, 4), 7);
    assert_eq!(subpalette_at(&fc, 1, 33, 5), 7);
    assert_eq!(subpalette_at(&fc, 1, 1, 5), 7);
    assert_eq!(subpalette_at(&fc, 1, 2, 5), 0);
    assert_eq!(subpalette_at(&fc, 1, 30, 6), 0);
}

#[test]
fn clearing_whole_layers_and_lines() {
    let mut fc = Box::new(Vfc::new());
    for y in 0..32 {
        for x in 0..32 {
            poke_bg(0, &mut fc, x, y, TileIndex(1));
            poke_bg(1, &mut fc, x, y, TileIndex(2));
            poke_bg_palette(1, &mut fc, x, y, Subpalette::new(4));
        }
    }
    clear_line(0, &mut fc, 37);
    assert_eq!(peek_bg(0, &fc, 9, 5), TileIndex(0));
    assert_eq!(peek_bg(0, &fc, 9, 6), TileIndex(1));
    clear_bg_tiles(0, &mut fc);
    assert_eq!(peek_bg(0, &fc, 31, 31), TileIndex(0));
    clear_bg(1, &mut fc);
    assert_eq!(peek_bg(1, &fc, 17, 3), TileIndex(0));
    assert_eq!(subpalette_at(&fc, 1, 17, 3), 4);
    clear_bg_palette(1, &mut fc);
    assert_eq!(subpalette_at(&fc, 1, 17, 3), 0);
}

#[test]
fn text_layer_clearing_covers_the_field_border() {
    let mut fc = Box::new(Vfc::new());
    for y in 0..32 {
        for x in 0..32 {
            poke_bg(1, &mut fc, x, y, TileIndex(2));
        }
    }
    clear_text_layer(&mut fc);
    assert_eq!(peek_bg(1, &fc, 6, 0), TileIndex(0));
    assert_eq!(peek_bg(1, &fc, 17, 31), TileIndex(0));
    assert_eq!(peek_bg(1, &fc, 5, 0), TileIndex(2));
    assert_eq!(peek_bg(1, &fc, 18, 9), TileIndex(2));
}

#[test]
fn all_sprites_can_be_hidden() {
    let mut fc = Box::new(Vfc::new());
    fc.oam.set(OamIndex(255), OamEntry::new(3, 4, TileIndex(5), TileAttributes::oam_default()));
    fc.oam.set(OamIndex(0), OamEntry::new(1, 2, TileIndex(6), TileAttributes::oam_default()));
    clear_sprites(&mut fc);
    for i in 0..=255u8 {
        assert_eq!(fc.oam.get(OamIndex(i)).y, 160);
    }
    assert_eq!(fc.oam.get(OamIndex(255)).x, 3);
    assert_eq!(fc.oam.get(OamIndex(0)).tile_index, TileIndex(6));
    fc.oam.set(OamIndex(1), OamEntry::new(1, 2, TileIndex(6), TileAttributes::oam_default()));
    fc.oam.hide_slot(OamIndex(1));
    assert_eq!(fc.oam.get(OamIndex(1)).y, 160);
    assert_eq!(OamEntry::default().y, 160);
}

#[test]
fn playfield_layout() {
    let mut fc = Box::new(Vfc::new());
    for y in 0..32 {
        for x in 0..32 {
            poke_bg(0, &mut fc, x, y, TileIndex(9));
            poke_bg(1, &mut fc, x, y, TileIndex(9));
            poke_bg_palette(0, &mut fc, x, y, Subpalette::new(3));
        }
    }
    init_playfield(&mut fc);
    assert_eq!(peek_bg(0, &fc, 6, 21), TileIndex(TILE_WALL));
    assert_eq!(peek_bg(0, &fc, 17, 0), TileIndex(TILE_WALL));
    assert_eq!(peek_bg(0, &fc, 6, 52), TileIndex(TILE_WALL));
    assert_eq!(subpalette_at(&fc, 0, 17, 3), 0);
    assert_eq!(peek_bg(0, &fc, 7, 21), TileIndex(TILE_EMPTY));
    assert_eq!(peek_bg(0, &fc, 16, 19), TileIndex(TILE_EMPTY));
    assert_eq!(peek_bg(0, &fc, 7, 36), TileIndex(TILE_CEILING));
    assert_eq!(peek_bg(0, &fc, 12, 52), TileIndex(TILE_WALL));
    assert_eq!(peek_bg(0, &fc, 5, 5), TileIndex(9));
    assert_eq!(subpalette_at(&fc, 0, 5, 5), 3);
    assert_eq!(subpalette_at(&fc, 0, 9, 24), 0);
    assert_eq!(fc.bg_layers[0].attributes[get_index_from_coords(9, 24)].get_rotation(), 5);
    assert_eq!(fc.bg_layers[0].attributes[get_index_from_coords(7, 21)].get_rotation(), 0);
    assert_eq!(peek_bg(1, &fc, 7, 33), TileIndex(TILE_EMPTY));
    assert_eq!(peek_bg(1, &fc, 7, 2), TileIndex(9));
}
