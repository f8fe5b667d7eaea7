use vfc::color::{Palette, PaletteIndex, RawPixel, Rgb, Subpalette};
use vfc::engine::{LayerType, Vfc};
use vfc::fc::poke_bg;
use vfc::oam::{OamEntry, OamIndex};
use vfc::tile::{TileAttributes, TileIndex};

fn red() -> Rgb {
    Rgb::new(255, 0, 0)
}

fn green() -> Rgb {
    Rgb::new(0, 255, 0)
}

fn black() -> Rgb {
    Rgb::new(0, 0, 0)
}

/// A tile whose only opaque pixel is local (0, 0), with raw value 1.
fn dot_tile() -> [[u8; 8]; 3] {
    [[0; 8], [0; 8], [1, 0, 0, 0, 0, 0, 0, 0]]
}

fn attributes(subpalette: u8, priority: u8) -> TileAttributes {
    let mut a = TileAttributes::empty();
    a.set_palette(Subpalette::new(subpalette));
    a.set_priority(priority);
    a
}

fn scene() -> Box<Vfc> {
    let mut fc = Box::new(Vfc::new());
    fc.tileset.write_tile(TileIndex(1), dot_tile());
    poke_bg(0, &mut fc, 0, 0, TileIndex(1));
    fc.bg_layers[0].attributes[0] = attributes(0, 1);
    fc.palette.set(PaletteIndex(0), black());
    fc.palette.set(PaletteIndex(1), red());
    fc.palette.set(PaletteIndex(8), green());
    fc.background_color = PaletteIndex(0);
    fc
}

fn pixel(fc: &Vfc, x: u8, y: u8) -> Rgb {
    fc.framebuffer[Vfc::get_fb_pixel_index(x, y)]
}

#[test]
fn background_tile_renders_through_palette() {
    let mut fc = scene();
    fc.render_frame();
    assert_eq!(pixel(&fc, 0, 0), red());
    assert_eq!(pixel(&fc, 8, 8), black());
    assert_eq!(pixel(&fc, 1, 0), black());
    assert_eq!(pixel(&fc, 191, 159), black());
}

#[test]
fn sprite_of_priority_three_covers_background() {
    let mut fc = scene();
    fc.oam.set(OamIndex(0), OamEntry::new(0, 0, TileIndex(1), attributes(1, 3)));
    // subpalette 1 and raw value 1 select palette index 1 * 8 + 1
    fc.palette.set(PaletteIndex(9), green());
    let list = fc.get_objects_on_scanline(0);
    assert_eq!(fc.get_top_pixel(&list, 0, 0).hit, PaletteIndex(9));
    fc.render_frame();
    assert_eq!(pixel(&fc, 0, 0), green());
    assert_eq!(pixel(&fc, 8, 8), black());
}

#[test]
fn priority_decides_between_sprite_and_background() {
    let mut fc = scene();
    fc.bg_layers[0].attributes[0] = attributes(0, 1);
    fc.oam.set(OamIndex(0), OamEntry::new(0, 0, TileIndex(1), attributes(1, 2)));
    let list = fc.get_objects_on_scanline(0);
    let top = fc.get_top_pixel(&list, 0, 0);
    assert_eq!(top.layer, LayerType::Oam(OamIndex(0)));
    assert_eq!(top.hit, PaletteIndex(9));
    assert_eq!(top.priority, 2);

    fc.bg_layers[0].attributes[0] = attributes(0, 2);
    fc.oam.set(OamIndex(0), OamEntry::new(0, 0, TileIndex(1), attributes(1, 1)));
    let top = fc.get_top_pixel(&list, 0, 0);
    assert_eq!(top.layer, LayerType::BgLayer(0));
    assert_eq!(top.hit, PaletteIndex(1));
    assert_eq!(top.priority, 2);
}

#[test]
fn equal_priority_goes_to_the_sprite() {
    let mut fc = scene();
    fc.oam.set(OamIndex(0), OamEntry::new(0, 0, TileIndex(1), attributes(1, 1)));
    let list = fc.get_objects_on_scanline(0);
    assert_eq!(fc.get_top_pixel(&list, 0, 0).layer, LayerType::Oam(OamIndex(0)));
}

#[test]
fn later_layer_wins_a_tie_between_layers() {
    let mut fc = scene();
    poke_bg(1, &mut fc, 0, 0, TileIndex(1));
    fc.bg_layers[1].attributes[0] = attributes(2, 1);
    let top = fc.get_top_pixel(&[], 0, 0);
    assert_eq!(top.layer, LayerType::BgLayer(1));
    assert_eq!(top.hit, PaletteIndex(17));
    fc.bg_layers[1].attributes[0] = attributes(2, 0);
    let top = fc.get_top_pixel(&[], 0, 0);
    assert_eq!(top.layer, LayerType::BgLayer(0));
}

#[test]
fn hidden_sprites_leave_background_resolution_alone() {
    let mut fc = scene();
    fc.oam.set(OamIndex(0), OamEntry::new(0, 0, TileIndex(1), attributes(1, 3)));
    fc.oam_hidden = true;
    fc.render_frame();
    assert_eq!(pixel(&fc, 0, 0), red());
}

#[test]
fn hidden_layer_shows_nothing() {
    let mut fc = scene();
    fc.bg_layers[0].hidden = true;
    fc.render_frame();
    assert_eq!(pixel(&fc, 0, 0), black());
}

#[test]
fn transparent_pixels_never_hit() {
    let mut fc = scene();
    // every pixel of tile 2 but (0, 0) is opaque
    let mut planes = [[0xffu8; 8]; 3];
    planes[0][0] = 0xfe;
    planes[1][0] = 0xfe;
    planes[2][0] = 0xfe;
    fc.tileset.write_tile(TileIndex(2), planes);
    poke_bg(0, &mut fc, 0, 0, TileIndex(2));
    fc.oam.set(OamIndex(0), OamEntry::new(0, 0, TileIndex(2), attributes(1, 3)));
    let list = fc.get_objects_on_scanline(0);
    assert_eq!(fc.object_hit(&list, 0, 0), None);
    assert_eq!(fc.get_top_pixel(&list, 0, 0).layer, LayerType::BgColor);
    assert_eq!(fc.get_top_pixel(&list, 1, 0).layer, LayerType::Oam(OamIndex(0)));
    assert_eq!(fc.get_top_pixel(&list, 1, 0).hit, PaletteIndex(15));
}

#[test]
fn scroll_of_255_acts_as_minus_one() {
    let mut fc = scene();
    // tile 3 has its only opaque pixel at local (1, 0)
    fc.tileset.write_tile(TileIndex(3), [[0; 8], [0; 8], [2, 0, 0, 0, 0, 0, 0, 0]]);
    poke_bg(0, &mut fc, 0, 0, TileIndex(3));
    fc.bg_layers[0].x = 255;
    let top = fc.get_top_pixel(&[], 0, 0);
    assert_eq!(top.layer, LayerType::BgLayer(0));
    // relative column 248, the first pixel of grid column 31, is screen column 247
    poke_bg(0, &mut fc, 31, 0, TileIndex(1));
    assert_eq!(fc.get_top_pixel(&[], 247, 0).layer, LayerType::BgLayer(0));
    assert_eq!(fc.get_top_pixel(&[], 255, 0).layer, LayerType::BgColor);
    for y in 1..8u8 {
        assert_eq!(fc.get_top_pixel(&[], 0, y).layer, LayerType::BgColor);
    }
}

#[test]
fn flips_mirror_the_tile() {
    let mut fc = Vfc::new();
    // tile 4: raw 1 at (0, 0), raw 2 at (1, 0), raw 4 at (0, 1)
    fc.tileset.write_tile(TileIndex(4), [[0, 1, 0, 0, 0, 0, 0, 0], [2, 0, 0, 0, 0, 0, 0, 0], [1, 0, 0, 0, 0, 0, 0, 0]]);
    let plain = TileAttributes::empty();
    let flip_x = plain.with_rotation(2);
    let flip_y = plain.with_rotation(4);
    let diagonal = plain.with_rotation(1);
    let t = &fc.tileset;
    assert!(flip_x.get_flip_x() && !flip_x.get_flip_y() && !flip_x.get_flip_diagonal());
    assert_eq!(t.pixel(TileIndex(4), &flip_x, 7, 0), t.pixel(TileIndex(4), &plain, 0, 0));
    assert_eq!(t.pixel(TileIndex(4), &flip_x, 7, 0), RawPixel(1));
    assert_eq!(t.pixel(TileIndex(4), &flip_y, 0, 7), RawPixel(1));
    assert_eq!(t.pixel(TileIndex(4), &diagonal, 1, 0), RawPixel(4));
    assert_eq!(t.pixel(TileIndex(4), &plain, 1, 0), RawPixel(2));
    // the eight combinations read (1, 0) from eight different places
    let mut seen = vec![];
    for r in 0..8u8 {
        let a = plain.with_rotation(r);
        let mut image = vec![];
        for y in 0..8u8 {
            for x in 0..8u8 {
                image.push(t.pixel(TileIndex(4), &a, x, y));
            }
        }
        assert!(!seen.contains(&image));
        seen.push(image);
    }
}

#[test]
fn hidden_sprite_is_on_no_scanline() {
    let mut fc = Vfc::new();
    let mut e = OamEntry::new(5, 0, TileIndex(1), TileAttributes::oam_default());
    fc.oam.set(OamIndex(7), e);
    assert_eq!(fc.get_objects_on_scanline(0), vec![OamIndex(7)]);
    e.hide_sprite();
    fc.oam.set(OamIndex(7), e);
    for line in 0..160u8 {
        assert!(fc.get_objects_on_scanline(line).is_empty());
    }
}

#[test]
fn sprites_wrap_around_the_edges() {
    let mut fc = Vfc::new();
    fc.oam.set(OamIndex(3), OamEntry::new(252, 252, TileIndex(1), TileAttributes::oam_default()));
    assert_eq!(fc.get_objects_on_scanline(3), vec![OamIndex(3)]);
    assert!(fc.get_objects_on_scanline(4).is_empty());
    assert!(fc.oam.get(OamIndex(3)).bounding_box_contains_pixel(0, 0));
    assert!(fc.oam.get(OamIndex(3)).bounding_box_contains_pixel(255, 255));
    assert!(!fc.oam.get(OamIndex(3)).bounding_box_contains_pixel(4, 0));
}

#[test]
fn first_sprite_in_table_order_wins() {
    let mut fc = scene();
    fc.oam.set(OamIndex(5), OamEntry::new(0, 0, TileIndex(1), attributes(1, 0)));
    fc.oam.set(OamIndex(9), OamEntry::new(0, 0, TileIndex(1), attributes(2, 3)));
    let list = fc.get_objects_on_scanline(0);
    assert_eq!(list, vec![OamIndex(5), OamIndex(9)]);
    let hit = fc.object_hit(&list, 0, 0).unwrap();
    assert_eq!(hit.layer, LayerType::Oam(OamIndex(5)));
    assert_eq!(hit.priority, 0);
    // priority 0 loses to the background cell of priority 1
    assert_eq!(fc.get_top_pixel(&list, 0, 0).layer, LayerType::BgLayer(0));
}

#[test]
fn colorization_is_subpalette_times_eight_plus_raw() {
    assert_eq!(Subpalette::new(3).colorize_pixel(RawPixel(5)), PaletteIndex(29));
    assert_eq!(Subpalette::new(7).colorize_pixel(RawPixel(7)), PaletteIndex(63));
    let mut fc = scene();
    fc.bg_layers[0].attributes[0] = attributes(5, 1);
    fc.palette.set(PaletteIndex(41), Rgb::new(1, 2, 3));
    fc.render_frame();
    assert_eq!(pixel(&fc, 0, 0), Rgb::new(1, 2, 3));
    assert_eq!(fc.get_pixel_rgb(PaletteIndex(41)), Rgb::new(1, 2, 3));
}

#[test]
fn argb_packing() {
    assert_eq!(Rgb::new(0x12, 0x34, 0x56).as_argb_u32(), 0xff12_3456);
    assert_eq!(Rgb::from_argb_u32(&0xff12_3456), Rgb::new(0x12, 0x34, 0x56));
    assert_eq!(Rgb::from_argb_u32(&0x0012_3456), Rgb::new(0x12, 0x34, 0x56));
    let c = Rgb::new(1, 2, 3);
    assert_eq!(Rgb::from_argb_u32(&c.as_argb_u32()), c);
    assert_eq!(Rgb::default().as_argb_u32(), 0);
}

#[test]
fn attribute_fields() {
    let a = TileAttributes::oam_default();
    assert_eq!(a.get_priority(), 1);
    assert_eq!(*a.get_palette().get(), 0);
    let b = a.with_palette(Subpalette::new(13)).with_rotation(0b101);
    assert_eq!(*b.get_palette().get(), 5);
    assert_eq!(b.get_rotation(), 5);
    assert!(b.get_flip_diagonal() && !b.get_flip_x() && b.get_flip_y());
    assert_eq!(b.get_priority(), 1);
    assert_eq!(b.with_priority(6).get_priority(), 2);
}

#[test]
fn test_palette_entries() {
    let p = Vfc::test_palette();
    assert_eq!(p.get(PaletteIndex(0)), Rgb::new(0, 0, 0));
    assert_eq!(p.get(PaletteIndex(17)), Rgb::new(16, 16, 17));
    assert_eq!(p.get(PaletteIndex(63)), Rgb::new(240, 48, 63));
    let q = Palette::new([Rgb::new(9, 9, 9); 64]);
    assert_eq!(q.get(PaletteIndex(5)), Rgb::new(9, 9, 9));
}

#[test]
fn sprite_pixel_uses_its_own_flips() {
    let mut fc = Vfc::new();
    fc.tileset.write_tile(TileIndex(1), dot_tile());
    let flipped = TileAttributes::oam_default().with_rotation(2);
    fc.oam.set(OamIndex(0), OamEntry::new(10, 20, TileIndex(1), flipped));
    assert_eq!(fc.get_tile_pixel_global(OamIndex(0), 17, 20), RawPixel(1));
    assert_eq!(fc.get_tile_pixel_global(OamIndex(0), 10, 20), RawPixel(0));
}

#[test]
fn tile_get_pixel_reads_bit_x_of_row_y() {
    let mut fc = Vfc::new();
    fc.tileset.write_tile(TileIndex(9), [[0x80, 0, 0, 0, 0, 0, 0, 0], [0; 8], [0, 0, 0, 0x04, 0, 0, 0, 0]]);
    let t = fc.tileset.get_tile(TileIndex(9));
    assert_eq!(t.get_pixel(7, 0), PaletteIndex(4));
    assert_eq!(t.get_pixel(2, 3), PaletteIndex(1));
    assert_eq!(t.get_pixel(10, 11), PaletteIndex(1));
    assert_eq!(t.get_pixel(0, 0), PaletteIndex(0));
}

#[test]
fn tile_grid_address_is_linear_modulo_1024() {
    let mut fc = Vfc::new();
    fc.bg_layers[0].tiles[32] = TileIndex(5);
    fc.bg_layers[0].tiles[0] = TileIndex(6);
    assert_eq!(fc.bg_layers[0].get_tile_index(32, 0), TileIndex(5));
    assert_eq!(fc.bg_layers[0].get_tile_index(0, 1), TileIndex(5));
    assert_eq!(fc.bg_layers[0].get_tile_index(0, 32), TileIndex(6));
    fc.bg_layers[0].attributes[33] = attributes(4, 2);
    assert_eq!(fc.bg_layers[0].get_tile_attribute(1, 1).get_priority(), 2);
}

#[test]
fn new_engine_holds_default_sprites() {
    let fc = Vfc::new();
    for i in 0..=255u8 {
        let e = fc.oam.get(OamIndex(i));
        assert_eq!((e.x, e.y, e.tile_index), (0, 160, TileIndex(0)));
        assert_eq!(e.attributes, TileAttributes::oam_default());
        assert_eq!(e.attributes.get_priority(), 1);
        assert_eq!(e.attributes.get_rotation(), 0);
    }
    for line in 0..160u8 {
        assert!(fc.get_objects_on_scanline(line).is_empty());
    }
}

#[test]
fn background_color_outside_the_palette_is_still_resolved() {
    let mut fc = Vfc::new();
    fc.background_color = PaletteIndex(200);
    let top = fc.get_top_pixel(&[], 5, 5);
    assert_eq!(top.layer, LayerType::BgColor);
    assert_eq!(top.hit, PaletteIndex(200));
}

#[test]
fn spans_of_any_width_wrap() {
    use_span();
}

fn use_span() {
    assert!(vfc::oam::span_contains(250, 10, 3));
    assert!(!vfc::oam::span_contains(250, 10, 4));
    assert!(vfc::oam::span_contains(10, 1, 10));
    assert!(!vfc::oam::span_contains(10, 0, 10));
    assert!(vfc::oam::span_contains(0, 255, 254));
}
