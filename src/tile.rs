use vstd::prelude::*;

use crate::color::{PaletteIndex, RawPixel, Subpalette};
use crate::constants::{BYTES_PER_TILE_PLANE, NUM_PLANES, NUM_TILES, TILE_HEIGHT, TILE_WIDTH};

verus! {

broadcast use vstd::array::group_array_axioms;

/// The subpalette field (bits 0 to 2) of a packed attribute byte.
pub open spec fn subpalette_bits(b: u8) -> u8 {
    b & 0b111
}

/// The three flip bits (bits 3 to 5) of a packed attribute byte, as one value:
/// bit 0 is the diagonal flip, bit 1 the horizontal flip, bit 2 the vertical flip.
pub open spec fn rotation_bits(b: u8) -> u8 {
    (b >> 3u8) & 0b111
}

/// Bit 3: swap the axes.
pub open spec fn flip_diagonal_bit(b: u8) -> bool {
    (b >> 3u8) & 1 != 0
}

/// Bit 4: mirror left to right.
pub open spec fn flip_x_bit(b: u8) -> bool {
    (b >> 4u8) & 1 != 0
}

/// Bit 5: mirror top to bottom.
pub open spec fn flip_y_bit(b: u8) -> bool {
    (b >> 5u8) & 1 != 0
}

/// The priority field (bits 6 and 7) of a packed attribute byte.
pub open spec fn priority_bits(b: u8) -> u8 {
    b >> 6u8
}

pub proof fn lemma_field_bounds(b: u8)
    ensures
        subpalette_bits(b) <= 7,
        rotation_bits(b) <= 7,
        priority_bits(b) <= 3,
{
    assert(b & 0b111 <= 7) by (bit_vector);
    assert((b >> 3u8) & 0b111 <= 7) by (bit_vector);
    assert(b >> 6u8 <= 3) by (bit_vector);
}

/// Per-cell and per-sprite attributes, packed into one byte: bits 0 to 2 select
/// the subpalette, bit 3 flips diagonally, bit 4 horizontally, bit 5
/// vertically, and bits 6 and 7 hold the priority.
#[derive(Debug, Default, Clone, Copy, PartialEq, Eq, Structural)]
pub struct TileAttributes(u8);

impl TileAttributes {
    /// The packed byte.
    pub closed spec fn bits(self) -> u8 {
        self.0
    }

    /// These attributes with the subpalette replaced by the low three bits of
    /// `s`.
    pub closed spec fn palette_set(self, s: Subpalette) -> TileAttributes {
        TileAttributes((self.0 & 0b11_111_000) | (s.0 & 0b111))
    }

    /// These attributes with the flip bits replaced by the low three bits of
    /// `r`.
    pub closed spec fn rotation_set(self, r: u8) -> TileAttributes {
        TileAttributes((self.0 & 0b11_000_111) | ((r & 0b111) << 3u8))
    }

    /// These attributes with the priority replaced by the low two bits of `p`.
    pub closed spec fn priority_set(self, p: u8) -> TileAttributes {
        TileAttributes((self.0 & 0b00_111_111) | ((p & 0b11) << 6u8))
    }

    /// Setting the same flip bits twice is setting them once.
    pub proof fn lemma_rotation_set_idempotent(self, r: u8)
        ensures
            self.rotation_set(r).rotation_set(r) == self.rotation_set(r),
    {
        let b = self.0;
        assert((((b & 0b11_000_111) | ((r & 0b111) << 3u8)) & 0b11_000_111) | ((r & 0b111) << 3u8) == (b
            & 0b11_000_111) | ((r & 0b111) << 3u8)) by (bit_vector);
    }

    /// Setting the same subpalette twice is setting it once.
    pub proof fn lemma_palette_set_idempotent(self, s: Subpalette)
        ensures
            self.palette_set(s).palette_set(s) == self.palette_set(s),
    {
        let b = self.0;
        let v = s.0;
        assert((((b & 0b11_111_000) | (v & 0b111)) & 0b11_111_000) | (v & 0b111) == (b & 0b11_111_000)
            | (v & 0b111)) by (bit_vector);
    }

    /// Attributes whose every field is 0.
    pub closed spec fn empty_spec() -> TileAttributes {
        TileAttributes(0)
    }

    /// Attributes whose every field is 0.
    pub fn empty() -> (a: TileAttributes)
        ensures
            a.bits() == 0,
            a == TileAttributes::empty_spec(),
    {
        TileAttributes(0)
    }

    /// The attributes a new sprite starts with: priority 1, every other field 0.
    pub fn oam_default() -> (a: TileAttributes)
        ensures
            subpalette_bits(a.bits()) == 0,
            rotation_bits(a.bits()) == 0,
            priority_bits(a.bits()) == 1,
            a.bits() == 0b0100_0000,
    {
        assert(64u8 & 0b111 == 0 && (64u8 >> 3u8) & 0b111 == 0 && 64u8 >> 6u8 == 1) by (bit_vector);
        TileAttributes(0b0100_0000)
    }

    pub fn get_palette(&self) -> (s: Subpalette)
        ensures
            s.0 == subpalette_bits(self.bits()),
            s.0 <= 7,
    {
        proof {
            lemma_field_bounds(self.0);
        }
        Subpalette::new(self.0 & 0b111)
    }

    pub fn get_rotation(&self) -> (r: u8)
        ensures
            r == rotation_bits(self.bits()),
            r <= 7,
    {
        proof {
            lemma_field_bounds(self.0);
        }
        (self.0 >> 3) & 0b111
    }

    pub fn get_flip_x(&self) -> (r: bool)
        ensures
            r == flip_x_bit(self.bits()),
    {
        (self.0 >> 4) & 1 != 0
    }

    pub fn get_flip_y(&self) -> (r: bool)
        ensures
            r == flip_y_bit(self.bits()),
    {
        (self.0 >> 5) & 1 != 0
    }

    pub fn get_flip_diagonal(&self) -> (r: bool)
        ensures
            r == flip_diagonal_bit(self.bits()),
    {
        (self.0 >> 3) & 1 != 0
    }

    pub fn get_priority(&self) -> (r: u8)
        ensures
            r == priority_bits(self.bits()),
            r <= 3,
    {
        proof {
            lemma_field_bounds(self.0);
        }
        self.0 >> 6
    }

    /// Sets the subpalette to the low three bits of `subpalette`; the other
    /// fields are kept.
    pub fn set_palette(&mut self, subpalette: Subpalette)
        ensures
            *final(self) == old(self).palette_set(subpalette),
            subpalette_bits(final(self).bits()) == subpalette.0 & 0b111,
            rotation_bits(final(self).bits()) == rotation_bits(old(self).bits()),
            priority_bits(final(self).bits()) == priority_bits(old(self).bits()),
    {
        let b = self.0;
        let s = *subpalette.get();
        let n = (b & 0b11_111_000) | (s & 0b111);
        assert(n & 0b111 == s & 0b111 && (n >> 3u8) & 0b111 == (b >> 3u8) & 0b111 && n >> 6u8 == b
            >> 6u8) by (bit_vector)
            requires
                n == (b & 0b11_111_000) | (s & 0b111),
        ;
        self.0 = n;
    }

    /// Sets the three flip bits to the low three bits of `rotation`; the other
    /// fields are kept.
    pub fn set_rotation(&mut self, rotation: u8)
        ensures
            *final(self) == old(self).rotation_set(rotation),
            rotation_bits(final(self).bits()) == rotation & 0b111,
            subpalette_bits(final(self).bits()) == subpalette_bits(old(self).bits()),
            priority_bits(final(self).bits()) == priority_bits(old(self).bits()),
    {
        let b = self.0;
        let n = (b & 0b11_000_111) | ((rotation & 0b111) << 3);
        assert((n >> 3u8) & 0b111 == rotation & 0b111 && n & 0b111 == b & 0b111 && n >> 6u8 == b
            >> 6u8) by (bit_vector)
            requires
                n == (b & 0b11_000_111) | ((rotation & 0b111) << 3u8),
        ;
        self.0 = n;
    }

    /// Sets the priority to the low two bits of `priority`; the other fields
    /// are kept.
    pub fn set_priority(&mut self, priority: u8)
        ensures
            *final(self) == old(self).priority_set(priority),
            priority_bits(final(self).bits()) == priority & 0b11,
            subpalette_bits(final(self).bits()) == subpalette_bits(old(self).bits()),
            rotation_bits(final(self).bits()) == rotation_bits(old(self).bits()),
    {
        let b = self.0;
        let n = (b & 0b00_111_111) | ((priority & 0b11) << 6);
        assert(n >> 6u8 == priority & 0b11 && n & 0b111 == b & 0b111 && (n >> 3u8) & 0b111 == (b
            >> 3u8) & 0b111) by (bit_vector)
            requires
                n == (b & 0b00_111_111) | ((priority & 0b11) << 6u8),
        ;
        self.0 = n;
    }

    /// A copy of these attributes with the priority replaced.
    pub fn with_priority(&self, priority: u8) -> (a: TileAttributes)
        ensures
            a == self.priority_set(priority),
            priority_bits(a.bits()) == priority & 0b11,
            subpalette_bits(a.bits()) == subpalette_bits(self.bits()),
            rotation_bits(a.bits()) == rotation_bits(self.bits()),
    {
        let mut a = *self;
        a.set_priority(priority);
        a
    }

    /// A copy of these attributes with the flip bits replaced.
    pub fn with_rotation(&self, rotation: u8) -> (a: TileAttributes)
        ensures
            a == self.rotation_set(rotation),
            rotation_bits(a.bits()) == rotation & 0b111,
            subpalette_bits(a.bits()) == subpalette_bits(self.bits()),
            priority_bits(a.bits()) == priority_bits(self.bits()),
    {
        let mut a = *self;
        a.set_rotation(rotation);
        a
    }

    /// A copy of these attributes with the subpalette replaced.
    pub fn with_palette(&self, subpalette: Subpalette) -> (a: TileAttributes)
        ensures
            a == self.palette_set(subpalette),
            subpalette_bits(a.bits()) == subpalette.0 & 0b111,
            rotation_bits(a.bits()) == rotation_bits(self.bits()),
            priority_bits(a.bits()) == priority_bits(self.bits()),
    {
        let mut a = *self;
        a.set_palette(subpalette);
        a
    }
}

/// An index into the tileset.
#[derive(Debug, Default, Clone, Copy, PartialEq, Eq, Structural)]
pub struct TileIndex(pub u8);

/// Bit `x` of a bitplane row.
pub open spec fn plane_bit(row: u8, x: u8) -> u8 {
    (row >> x) & 1
}

/// The 3-bit value of column `x` across three bitplane rows; the first plane
/// gives the most significant bit.
pub open spec fn combine_planes(r0: u8, r1: u8, r2: u8, x: u8) -> u8 {
    (plane_bit(r0, x) * 4 + plane_bit(r1, x) * 2 + plane_bit(r2, x)) as u8
}

/// `v` mirrored within a tile when `flip` is set.
pub open spec fn flip_axis(flip: bool, v: u8) -> u8 {
    if flip {
        (7 - v) as u8
    } else {
        v
    }
}

/// Where local pixel (`x`, `y`) reads from the tile under attribute byte `b`:
/// both coordinates are taken modulo 8, the horizontal and vertical flips are
/// applied, and then the diagonal flip swaps the axes.
pub open spec fn oriented(b: u8, x: u8, y: u8) -> (u8, u8) {
    let fx = flip_axis(flip_x_bit(b), x % 8);
    let fy = flip_axis(flip_y_bit(b), y % 8);
    if flip_diagonal_bit(b) {
        (fy, fx)
    } else {
        (fx, fy)
    }
}

pub type TileData = [[[u8; BYTES_PER_TILE_PLANE]; NUM_TILES]; NUM_PLANES];

/// The unflipped raw value of pixel (`x`, `y`) of tile `t`, for `x`, `y` below 8.
pub open spec fn raw_at(data: TileData, t: u8, x: u8, y: u8) -> u8 {
    combine_planes(
        data@[0]@[t as int]@[y as int],
        data@[1]@[t as int]@[y as int],
        data@[2]@[t as int]@[y as int],
        x,
    )
}

/// The raw value that tile `t` shows at local pixel (`x`, `y`) under
/// attribute byte `b`.
pub open spec fn raw_pixel(data: TileData, t: u8, b: u8, x: u8, y: u8) -> u8 {
    raw_at(data, t, oriented(b, x, y).0, oriented(b, x, y).1)
}

/// A raw value has three bits.
pub proof fn lemma_raw_pixel_bound(data: TileData, t: u8, b: u8, x: u8, y: u8)
    ensures
        raw_pixel(data, t, b, x, y) <= 7,
{
    let c = oriented(b, x, y);
    let r0 = data@[0]@[t as int]@[c.1 as int];
    let r1 = data@[1]@[t as int]@[c.1 as int];
    let r2 = data@[2]@[t as int]@[c.1 as int];
    let sx = c.0;
    assert((r0 >> sx) & 1 <= 1 && (r1 >> sx) & 1 <= 1 && (r2 >> sx) & 1 <= 1) by (bit_vector);
}

/// The flip bits as the three bits of the rotation value.
pub proof fn lemma_rotation_flip_bits(b: u8)
    ensures
        flip_diagonal_bit(b) == (rotation_bits(b) & 1 != 0),
        flip_x_bit(b) == (rotation_bits(b) & 2 != 0),
        flip_y_bit(b) == (rotation_bits(b) & 4 != 0),
{
    assert(((b >> 3u8) & 1 != 0) == (((b >> 3u8) & 0b111) & 1 != 0)) by (bit_vector);
    assert(((b >> 4u8) & 1 != 0) == (((b >> 3u8) & 0b111) & 2 != 0)) by (bit_vector);
    assert(((b >> 5u8) & 1 != 0) == (((b >> 3u8) & 0b111) & 4 != 0)) by (bit_vector);
}

/// Each flip bit alone mirrors the tile along its own axis: with only the
/// horizontal flip set, local (`x`, `y`) shows the unflipped (7 - `x`, `y`);
/// with only the vertical flip, (`x`, 7 - `y`); with only the diagonal flip,
/// (`y`, `x`). With no flip bit set the tile shows as stored.
pub proof fn lemma_single_flips(data: TileData, t: u8, b: u8, x: u8, y: u8)
    requires
        x < 8,
        y < 8,
    ensures
        rotation_bits(b) == 0 ==> raw_pixel(data, t, b, x, y) == raw_at(data, t, x, y),
        rotation_bits(b) == 2 ==> raw_pixel(data, t, b, x, y) == raw_at(data, t, (7 - x) as u8, y),
        rotation_bits(b) == 4 ==> raw_pixel(data, t, b, x, y) == raw_at(data, t, x, (7 - y) as u8),
        rotation_bits(b) == 1 ==> raw_pixel(data, t, b, x, y) == raw_at(data, t, y, x),
{
    lemma_rotation_flip_bits(b);
    let r = rotation_bits(b);
    assert(r == 0 ==> r & 1 == 0 && r & 2 == 0 && r & 4 == 0) by (bit_vector);
    assert(r == 2 ==> r & 1 == 0 && r & 2 != 0 && r & 4 == 0) by (bit_vector);
    assert(r == 4 ==> r & 1 == 0 && r & 2 == 0 && r & 4 != 0) by (bit_vector);
    assert(r == 1 ==> r & 1 != 0 && r & 2 == 0 && r & 4 == 0) by (bit_vector);
}

/// The eight flip-bit combinations are eight different orientations: local
/// pixel (1, 0) reads a different source pixel under each of them.
pub proof fn lemma_orientations_distinct(b1: u8, b2: u8)
    requires
        rotation_bits(b1) != rotation_bits(b2),
    ensures
        oriented(b1, 1, 0) != oriented(b2, 1, 0),
{
    lemma_rotation_flip_bits(b1);
    lemma_rotation_flip_bits(b2);
    lemma_field_bounds(b1);
    lemma_field_bounds(b2);
    let r1 = rotation_bits(b1);
    let r2 = rotation_bits(b2);
    assert(r1 <= 7 && r2 <= 7 && r1 != r2 ==> ((r1 & 1 != 0) != (r2 & 1 != 0) || (r1 & 2 != 0) != (
    r2 & 2 != 0) || (r1 & 4 != 0) != (r2 & 4 != 0))) by (bit_vector);
}

/// The source pixel that local (`x`, `y`) reads under the flips
/// (`d`, `fx`, `fy`): mirror the axes whose flag is set, then swap them if `d`
/// is set.
pub open spec fn orient3(d: bool, fx: bool, fy: bool, x: u8, y: u8) -> (u8, u8) {
    let ox = flip_axis(fx, x);
    let oy = flip_axis(fy, y);
    if d {
        (oy, ox)
    } else {
        (ox, oy)
    }
}

/// Flipping twice is one flip: following (`ds`, `as_`, `bs`) by
/// (`d2`, `a2`, `b2`) is the flip combination given here.
proof fn lemma_orient3_compose(d2: bool, a2: bool, b2: bool, ds: bool, as_: bool, bs: bool, x: u8, y: u8)
    requires
        x < 8,
        y < 8,
    ensures
        ({
            let p = orient3(ds, as_, bs, x, y);
            orient3(d2, a2, b2, p.0, p.1) == orient3(
                d2 != ds,
                if ds {
                    b2 != as_
                } else {
                    a2 != as_
                },
                if ds {
                    a2 != bs
                } else {
                    b2 != bs
                },
                x,
                y,
            )
        }),
        orient3(ds, as_, bs, x, y).0 < 8,
        orient3(ds, as_, bs, x, y).1 < 8,
{
}

/// An attribute byte whose flip bits are (`d`, `fx`, `fy`).
proof fn lemma_flip_byte(d: bool, fx: bool, fy: bool) -> (b: u8)
    ensures
        flip_diagonal_bit(b) == d,
        flip_x_bit(b) == fx,
        flip_y_bit(b) == fy,
        rotation_bits(b) == 0 <==> (!d && !fx && !fy),
{
    let ri: int = (if d { 1int } else { 0int }) + (if fx { 2int } else { 0int }) + (if fy { 4int } else { 0int });
    let r: u8 = ri as u8;
    assert(r == ri);
    let b: u8 = (ri * 8) as u8;
    assert(b == ri * 8);
    assert((b >> 3u8) & 0b111 == r) by (bit_vector)
        requires
            r <= 7,
            b == r * 8u8,
    ;
    lemma_rotation_flip_bits(b);
    assert(r <= 7 ==> ((r & 1 != 0) == (r % 2 == 1) && (r & 2 != 0) == ((r / 2) % 2 == 1) && (r & 4 != 0)
        == (r / 4 == 1))) by (bit_vector);
    b
}

/// The eight flip-bit combinations show a tile in eight different ways,
/// provided the tile is asymmetric: it differs somewhere from each of its
/// seven non-identity flips.
pub proof fn lemma_flip_combinations_distinct(data: TileData, t: u8, b1: u8, b2: u8)
    requires
        rotation_bits(b1) != rotation_bits(b2),
        forall|b: u8|
            rotation_bits(b) != 0 ==> exists|x: u8, y: u8|
                x < 8 && y < 8 && #[trigger] raw_pixel(data, t, b, x, y) != raw_at(data, t, x, y),
    ensures
        exists|x: u8, y: u8| x < 8 && y < 8 && raw_pixel(data, t, b1, x, y) != raw_pixel(data, t, b2, x, y),
{
    lemma_rotation_flip_bits(b1);
    lemma_rotation_flip_bits(b2);
    lemma_field_bounds(b1);
    lemma_field_bounds(b2);
    let r1 = rotation_bits(b1);
    let r2 = rotation_bits(b2);
    assert(r1 <= 7 && r2 <= 7 && r1 != r2 ==> ((r1 & 1 != 0) != (r2 & 1 != 0) || (r1 & 2 != 0) != (
    r2 & 2 != 0) || (r1 & 4 != 0) != (r2 & 4 != 0))) by (bit_vector);
    let (d1, a1, c1) = (flip_diagonal_bit(b1), flip_x_bit(b1), flip_y_bit(b1));
    let (d2, a2, c2) = (flip_diagonal_bit(b2), flip_x_bit(b2), flip_y_bit(b2));
    // the inverse of the first combination
    let (di, ai, ci) = if d1 {
        (true, c1, a1)
    } else {
        (false, a1, c1)
    };
    // the second combination after that inverse
    let (d3, a3, c3) = (
        d2 != di,
        if di {
            c2 != ai
        } else {
            a2 != ai
        },
        if di {
            a2 != ci
        } else {
            c2 != ci
        },
    );
    let b3 = lemma_flip_byte(d3, a3, c3);
    assert(rotation_bits(b3) != 0);
    let (x, y) = choose|x: u8, y: u8|
        x < 8 && y < 8 && #[trigger] raw_pixel(data, t, b3, x, y) != raw_at(data, t, x, y);
    let p = orient3(di, ai, ci, x, y);
    lemma_orient3_compose(d1, a1, c1, di, ai, ci, x, y);
    lemma_orient3_compose(d2, a2, c2, di, ai, ci, x, y);
    lemma_oriented_orient3(b1, p.0, p.1);
    lemma_oriented_orient3(b2, p.0, p.1);
    lemma_oriented_orient3(b3, x, y);
    assert(oriented(b1, p.0, p.1) == (x, y));
    assert(oriented(b2, p.0, p.1) == oriented(b3, x, y));
    assert(raw_pixel(data, t, b1, p.0, p.1) != raw_pixel(data, t, b2, p.0, p.1));
}

/// For coordinates below 8, `oriented` is `orient3` of the byte's flip bits.
proof fn lemma_oriented_orient3(b: u8, x: u8, y: u8)
    requires
        x < 8,
        y < 8,
    ensures
        oriented(b, x, y) == orient3(flip_diagonal_bit(b), flip_x_bit(b), flip_y_bit(b), x, y),
{
}

/// The 3-bit value of column `x` (below 8) of the given rows.
fn combine(r0: u8, r1: u8, r2: u8, x: u8) -> (v: u8)
    requires
        x < 8,
    ensures
        v == combine_planes(r0, r1, r2, x),
        v <= 7,
{
    let b0 = (r0 >> x) & 1;
    let b1 = (r1 >> x) & 1;
    let b2 = (r2 >> x) & 1;
    assert(b0 <= 1 && b1 <= 1 && b2 <= 1) by (bit_vector)
        requires
            b0 == (r0 >> x) & 1,
            b1 == (r1 >> x) & 1,
            b2 == (r2 >> x) & 1,
    ;
    b0 * 4 + b1 * 2 + b2
}

/// One 8x8 tile: a row byte per plane.
#[derive(Debug, Clone, Copy)]
pub struct Tile {
    pub tile: [[u8; BYTES_PER_TILE_PLANE]; NUM_PLANES],
}

impl Tile {
    /// The unflipped raw value at local pixel (`pixel_x`, `pixel_y`), both
    /// taken modulo 8.
    pub fn get_pixel(&self, pixel_x: u8, pixel_y: u8) -> (p: PaletteIndex)
        ensures
            p.0 == combine_planes(
                self.tile@[0]@[(pixel_y % 8) as int],
                self.tile@[1]@[(pixel_y % 8) as int],
                self.tile@[2]@[(pixel_y % 8) as int],
                pixel_x % 8,
            ),
            p.0 <= 7,
    {
        let x = pixel_x % TILE_WIDTH as u8;
        let y = (pixel_y % TILE_HEIGHT as u8) as usize;
        PaletteIndex(combine(self.tile[0][y], self.tile[1][y], self.tile[2][y], x))
    }
}

/// The glyphs of up to 256 tiles, stored as bitplanes.
#[derive(Clone, Copy)]
pub struct Tileset {
    pub pixel_data: TileData,
}

impl Tileset {
    /// A tileset whose every pixel is 0.
    pub fn new() -> (t: Tileset)
        ensures
            forall|p: int, i: int, y: int|
                0 <= p < 3 && 0 <= i < 256 && 0 <= y < 8 ==> #[trigger] t.pixel_data@[p]@[i]@[y]
                    == 0,
    {
        let row = [0u8; BYTES_PER_TILE_PLANE];
        let plane = [row; NUM_TILES];
        Tileset { pixel_data: [plane; NUM_PLANES] }
    }

    /// A copy of tile `tile_index`.
    pub fn get_tile(&self, tile_index: TileIndex) -> (t: Tile)
        ensures
            forall|p: int| 0 <= p < 3 ==> #[trigger] t.tile@[p] == self.pixel_data@[p]@[tile_index.0 as int],
    {
        let i = tile_index.0 as usize;
        Tile { tile: [self.pixel_data[0][i], self.pixel_data[1][i], self.pixel_data[2][i]] }
    }

    /// Replaces tile `tile_index` with the given planes.
    pub fn write_tile(&mut self, tile_index: TileIndex, tile: [[u8; BYTES_PER_TILE_PLANE]; NUM_PLANES])
        ensures
            forall|p: int, i: int|
                0 <= p < 3 && 0 <= i < 256 ==> #[trigger] final(self).pixel_data@[p]@[i] == if i
                    == tile_index.0 {
                    tile@[p]
                } else {
                    old(self).pixel_data@[p]@[i]
                },
    {
        let i = tile_index.0 as usize;
        let mut p: usize = 0;
        while p < NUM_PLANES
            invariant
                p <= 3,
                i == tile_index.0,
                forall|q: int, j: int|
                    0 <= q < 3 && 0 <= j < 256 ==> #[trigger] self.pixel_data@[q]@[j] == if j == i
                        && q < p {
                        tile@[q]
                    } else {
                        old(self).pixel_data@[q]@[j]
                    },
            decreases 3 - p,
        {
            let mut plane = self.pixel_data[p];
            assert(plane@.len() == NUM_TILES);
            plane[i] = tile[p];
            self.pixel_data[p] = plane;
            p += 1;
        }
    }

    /// The raw value that tile `tile_index` shows at local pixel (`pixel_x`,
    /// `pixel_y`) under `attributes`' flip bits.
    pub fn pixel(&self, tile_index: TileIndex, attributes: &TileAttributes, pixel_x: u8, pixel_y: u8) -> (p: RawPixel)
        ensures
            p.0 == raw_pixel(self.pixel_data, tile_index.0, attributes.bits(), pixel_x, pixel_y),
            p.0 <= 7,
    {
        let x = pixel_x % TILE_WIDTH as u8;
        let y = pixel_y % TILE_HEIGHT as u8;
        let fx = if attributes.get_flip_x() { 7 - x } else { x };
        let fy = if attributes.get_flip_y() { 7 - y } else { y };
        let (sx, sy) = if attributes.get_flip_diagonal() { (fy, fx) } else { (fx, fy) };
        let i = tile_index.0 as usize;
        let row = sy as usize;
        RawPixel(combine(self.pixel_data[0][i][row], self.pixel_data[1][i][row], self.pixel_data[2][i][row], sx))
    }
}

} // verus!
