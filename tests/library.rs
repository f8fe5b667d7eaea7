use vfc::collision::{tile_is_block, tile_is_empty, tile_is_solid, tile_is_wall};
use vfc::color::{PaletteIndex, RawPixel, Rgb};
use vfc::engine::{LayerType, Vfc};
use vfc::fixed::{i8p8, u16p16, u8p8};
use vfc::image_tiles::tileset_from_rgba;
use vfc::oam::{OamIndex, OamTable};
use vfc::output::{as_argb_u32, next_frame, render_to_argb_u32};
use vfc::sprite::{test_list, SpriteList};
use vfc::tile::{TileAttributes, TileIndex};
use vfc::NUM_SCREEN_PIXELS;

#[test]
fn collision_classes() {
    assert!(tile_is_empty(TileIndex(0x00)) && tile_is_empty(TileIndex(0x3f)));
    assert!(!tile_is_empty(TileIndex(0x40)));
    assert!(tile_is_wall(TileIndex(0x7f)) && !tile_is_wall(TileIndex(0x80)));
    assert!(tile_is_block(TileIndex(0x80)) && tile_is_block(TileIndex(0xff)));
    assert!(!tile_is_block(TileIndex(0x7f)));
    assert!(tile_is_solid(TileIndex(0x40)) && !tile_is_solid(TileIndex(0x01)));
}

#[test]
fn fixed_point_products() {
    let a = i8p8::from_raw(0x0180); // 1.5
    let b = i8p8::from_raw(-0x0200); // -2.0
    let p = a.full_mul(b);
    assert_eq!(p.to_raw(), -0x0003_0000);
    assert_eq!(i8p8::from_i16p16_truncated(p).to_raw(), -0x0300);
    let c = u8p8::from_raw(0x0280); // 2.5
    let q = c.full_mul(u8p8::from_raw(0x0400)); // times 4.0
    assert_eq!(q.to_raw(), 0x000a_0000);
    assert_eq!(u8p8::from_u16p16_truncated(q).to_raw(), 0x0a00);
    assert_eq!(u8p8::from_u16p16_truncated(u16p16::from_raw(0x1234_5678)).to_raw(), 0x3456);
    assert_eq!(u16p16::from_raw(7).to_raw(), 7);
}

#[test]
fn tileset_from_image_pixels() {
    // a 16 x 8 image: two blocks, one row of them
    let mut pixels = vec![0u8; 16 * 8 * 4];
    let set = |pixels: &mut Vec<u8>, x: usize, y: usize, r: u8, a: u8| {
        let i = (y * 16 + x) * 4;
        pixels[i] = r;
        pixels[i + 3] = a;
    };
    set(&mut pixels, 0, 0, 255, 255); // raw 7
    set(&mut pixels, 1, 0, 32, 255); // raw 1
    set(&mut pixels, 2, 0, 255, 100); // transparent
    set(&mut pixels, 9, 3, 128, 200); // raw 4, second block
    let t = tileset_from_rgba(16, 8, &pixels);
    let plain = TileAttributes::empty();
    assert_eq!(t.pixel(TileIndex(0), &plain, 0, 0), RawPixel(7));
    assert_eq!(t.pixel(TileIndex(0), &plain, 1, 0), RawPixel(1));
    assert_eq!(t.pixel(TileIndex(0), &plain, 2, 0), RawPixel(0));
    assert_eq!(t.pixel(TileIndex(1), &plain, 1, 3), RawPixel(4));
    assert_eq!(t.pixel_data[0][0][0], 0b0000_0001);
    assert_eq!(t.pixel_data[2][0][0], 0b0000_0011);
}

#[test]
fn argb_output() {
    let mut fc = Box::new(Vfc::new());
    fc.palette.set(PaletteIndex(0), Rgb::new(1, 2, 3));
    let frame = next_frame(&mut fc);
    assert_eq!(frame.len(), NUM_SCREEN_PIXELS);
    assert_eq!(frame[0], 0xff01_0203);
    assert_eq!(frame[NUM_SCREEN_PIXELS - 1], 0xff01_0203);
    let direct = as_argb_u32(&fc.framebuffer);
    assert_eq!(direct, frame);
    let mut target = vec![5u32; NUM_SCREEN_PIXELS + 2];
    render_to_argb_u32(&fc.framebuffer, &mut target);
    assert_eq!(target[10], 0xff01_0203);
    assert_eq!(target[NUM_SCREEN_PIXELS + 1], 5);
}

#[test]
fn sprite_blocks_are_centered() {
    let list = test_list(100, 50);
    let mut table = OamTable::default();
    list.render(8, &mut table);
    let e = table.get(OamIndex(8));
    assert_eq!((e.x, e.y, e.tile_index), (92, 42, TileIndex(0x10)));
    assert_eq!(e.attributes.get_priority(), 0);
    let e = table.get(OamIndex(9));
    assert_eq!((e.x, e.y, e.tile_index), (100, 42, TileIndex(0x11)));
    let e = table.get(OamIndex(11));
    assert_eq!((e.x, e.y, e.tile_index), (100, 50, TileIndex(0x13)));
    assert_eq!(e.attributes.get_priority(), 3);
    assert_eq!(table.get(OamIndex(12)).y, 160);
}

#[test]
fn sprite_blocks_wrap_and_render_partially() {
    let mut list = SpriteList::default();
    let a = TileAttributes::oam_default();
    list.add_sprite_centered(2, 0, 1, 3, &[TileIndex(1), TileIndex(2), TileIndex(3)], &[a, a, a]);
    let mut table = OamTable::default();
    list.render_partial(254, 1, 3, &mut table);
    // x: 2 - 4 + 8 * column and y: 0 - 12, wrapped to a byte
    assert_eq!(table.get(OamIndex(254)).x, 6);
    assert_eq!(table.get(OamIndex(254)).tile_index, TileIndex(2));
    assert_eq!(table.get(OamIndex(255)).tile_index, TileIndex(3));
    assert_eq!(table.get(OamIndex(0)).tile_index, TileIndex(1));
    assert_eq!(table.get(OamIndex(0)).x, 254);
    assert_eq!(table.get(OamIndex(0)).y, 244);
    list.clear();
    let mut untouched = OamTable::default();
    list.render(0, &mut untouched);
    assert_eq!(untouched.get(OamIndex(0)).y, 160);
}

#[test]
fn sprite_list_drives_the_compositor() {
    let mut fc = Box::new(Vfc::new());
    fc.tileset.write_tile(TileIndex(0x13), [[0; 8], [0; 8], [1; 8]]);
    test_list(8, 8).render(0, &mut fc.oam);
    let list = fc.get_objects_on_scanline(8);
    assert_eq!(fc.get_top_pixel(&list, 8, 8).layer, LayerType::Oam(OamIndex(3)));
}
