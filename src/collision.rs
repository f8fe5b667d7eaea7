use vstd::prelude::*;

use crate::tile::TileIndex;

verus! {

/// The two high bits of a tile index give its collision class.
pub const COLLIDE_TEST_MASK: u8 = 0b1100_0000;

pub const COLLIDE_EMPTY: u8 = 0b0000_0000;

pub const COLLIDE_WALL: u8 = 0b0100_0000;

pub const COLLIDE_BLOCK_A: u8 = 0b1000_0000;

pub const COLLIDE_BLOCK_B: u8 = 0b1100_0000;

/// The collision class of tile index `t`: its two high bits, 0 to 3.
pub open spec fn collision_class(t: u8) -> u8 {
    t / 64
}

fn collision_test(a: u8, mask: u8) -> (r: bool)
    ensures
        r == ((a & COLLIDE_TEST_MASK) == mask),
{
    let r = ((a & COLLIDE_TEST_MASK) ^ mask) == 0;
    assert(((a & 0b1100_0000) ^ mask == 0) == ((a & 0b1100_0000) == mask)) by (bit_vector);
    r
}

fn tile_test(a: TileIndex, class: u8) -> (r: bool)
    requires
        class <= 3,
    ensures
        r == (collision_class(a.0) == class),
{
    let mask = class * 64;
    let r = collision_test(a.0, mask);
    let v = a.0;
    assert(((v & 0b1100_0000) == mask) == (v / 64 == class)) by (bit_vector)
        requires
            class <= 3,
            mask == class * 64,
    ;
    r
}

/// Tiles 0x00 to 0x3f are empty space.
pub fn tile_is_empty(a: TileIndex) -> (r: bool)
    ensures
        r == (collision_class(a.0) == 0),
        r == (a.0 < 0x40),
{
    tile_test(a, COLLIDE_EMPTY / 64)
}

/// Tiles 0x40 to 0x7f are walls.
pub fn tile_is_wall(a: TileIndex) -> (r: bool)
    ensures
        r == (collision_class(a.0) == 1),
        r == (0x40 <= a.0 < 0x80),
{
    tile_test(a, COLLIDE_WALL / 64)
}

/// Tiles 0x80 to 0xff are blocks.
pub fn tile_is_block(a: TileIndex) -> (r: bool)
    ensures
        r == (collision_class(a.0) == 2 || collision_class(a.0) == 3),
        r == (a.0 >= 0x80),
{
    tile_test(a, COLLIDE_BLOCK_A / 64) || tile_test(a, COLLIDE_BLOCK_B / 64)
}

/// Every tile that is not empty is solid.
pub fn tile_is_solid(a: TileIndex) -> (r: bool)
    ensures
        r == (collision_class(a.0) != 0),
        r == (a.0 >= 0x40),
{
    !tile_is_empty(a)
}

} // verus!
