use vstd::prelude::*;

use crate::constants::{TILE_HEIGHT, TILE_WIDTH};
use crate::oam::{OamEntry, OamIndex, OamTable};
use crate::tile::{TileAttributes, TileIndex};

verus! {

/// The low byte of a signed coordinate: the coordinate wrapped onto the
/// 8-bit screen space.
pub open spec fn low_byte(v: i32) -> u8 {
    (v & 0xff) as u8
}

/// Sprite `k` of a `w` x `h` block of 8x8 sprites centered on (`cx`, `cy`).
/// Sprites are laid out row by row (`w` rows of `h`): sprite `k` sits in row
/// `k / h` and column `k % h`, and takes tile and attributes number
/// `row * w + column`.
pub open spec fn centered_entry(
    cx: i32,
    cy: i32,
    w: i32,
    h: i32,
    tiles: Seq<TileIndex>,
    attributes: Seq<TileAttributes>,
    k: int,
) -> OamEntry {
    let yi = k / h as int;
    let xi = k % h as int;
    let i = yi * w + xi;
    OamEntry {
        x: low_byte((cx - (w * 8) / 2 + xi * 8) as i32),
        y: low_byte((cy - (h * 8) / 2 + yi * 8) as i32),
        tile_index: tiles[i],
        attributes: attributes[i],
    }
}

/// The first `n` sprites of such a block.
pub open spec fn centered_block(
    cx: i32,
    cy: i32,
    w: i32,
    h: i32,
    tiles: Seq<TileIndex>,
    attributes: Seq<TileAttributes>,
    n: int,
) -> Seq<OamEntry> {
    Seq::new(n as nat, |k: int| centered_entry(cx, cy, w, h, tiles, attributes, k))
}

/// The table after the first `n` sprites of `list` are copied into slots
/// `offset`, `offset + 1`, ... (wrapping at 256); later copies replace
/// earlier ones.
pub open spec fn rendered(table: Seq<OamEntry>, list: Seq<OamEntry>, offset: u8, n: int) -> Seq<OamEntry>
    decreases n,
{
    if n <= 0 {
        table
    } else {
        rendered(table, list, offset, n - 1).update((offset + n - 1) % 256, list[n - 1])
    }
}

/// The table after `length` sprites are copied into slots `offset`,
/// `offset + 1`, ..., the one for step `i` being list entry
/// `(start + i) % 256 % list.len()`.
pub open spec fn rendered_partial(
    table: Seq<OamEntry>,
    list: Seq<OamEntry>,
    offset: u8,
    start: u8,
    n: int,
) -> Seq<OamEntry>
    decreases n,
{
    if n <= 0 {
        table
    } else {
        rendered_partial(table, list, offset, start, n - 1).update(
            (offset + n - 1) % 256,
            list[((start + n - 1) % 256) % list.len() as int],
        )
    }
}

/// A growable list of sprites that is copied into the sprite table as a
/// group.
#[derive(Debug)]
pub struct SpriteList {
    list: Vec<OamEntry>,
}

impl Default for SpriteList {
    fn default() -> (s: SpriteList)
        ensures
            s.entries() == Seq::<OamEntry>::empty(),
    {
        SpriteList { list: Vec::new() }
    }
}

impl SpriteList {
    /// The sprites, in order.
    pub closed spec fn entries(&self) -> Seq<OamEntry> {
        self.list@
    }

    /// Appends a `w` x `h` block of sprites centered on (`center_x`,
    /// `center_y`), row by row; see `centered_entry`.
    pub fn add_sprite_centered(
        &mut self,
        center_x: i32,
        center_y: i32,
        w: i32,
        h: i32,
        tiles: &[TileIndex],
        attributes: &[TileAttributes],
    )
        requires
            0 <= w <= 0x8000,
            0 <= h <= 0x8000,
            -0x1000_0000 <= center_x <= 0x1000_0000,
            -0x1000_0000 <= center_y <= 0x1000_0000,
            forall|yi: int, xi: int|
                0 <= yi < w && 0 <= xi < h ==> #[trigger] (yi * w + xi) < tiles@.len() && yi * w + xi
                    < attributes@.len(),
        ensures
            final(self).entries() == old(self).entries() + centered_block(
                center_x,
                center_y,
                w,
                h,
                tiles@,
                attributes@,
                w * h,
            ),
    {
        let pixel_w = w * TILE_WIDTH as i32;
        let pixel_h = h * TILE_HEIGHT as i32;
        let ghost base = self.list@;
        let mut yi: i32 = 0;
        while yi < w
            invariant
                0 <= w <= 0x8000,
                0 <= h <= 0x8000,
                -0x1000_0000 <= center_x <= 0x1000_0000,
                -0x1000_0000 <= center_y <= 0x1000_0000,
                pixel_w == w * 8,
                pixel_h == h * 8,
                0 <= yi <= w,
                base == old(self).entries(),
                forall|a: int, b: int|
                    0 <= a < w && 0 <= b < h ==> #[trigger] (a * w + b) < tiles@.len() && a * w + b
                        < attributes@.len(),
                self.list@ == base + centered_block(center_x, center_y, w, h, tiles@, attributes@, yi * h),
            decreases w - yi,
        {
            let mut xi: i32 = 0;
            while xi < h
                invariant
                    0 <= w <= 0x8000,
                    0 <= h <= 0x8000,
                    -0x1000_0000 <= center_x <= 0x1000_0000,
                    -0x1000_0000 <= center_y <= 0x1000_0000,
                    pixel_w == w * 8,
                    pixel_h == h * 8,
                    0 <= yi < w,
                    0 <= xi <= h,
                    base == old(self).entries(),
                    forall|a: int, b: int|
                        0 <= a < w && 0 <= b < h ==> #[trigger] (a * w + b) < tiles@.len() && a * w + b
                            < attributes@.len(),
                    self.list@ == base + centered_block(
                        center_x,
                        center_y,
                        w,
                        h,
                        tiles@,
                        attributes@,
                        yi * h + xi,
                    ),
                decreases h - xi,
            {
                assert(yi * w <= 0x8000 * 0x8000 && yi * h + xi <= 0x8000 * 0x8000) by (nonlinear_arith)
                    requires
                        0 <= yi < w <= 0x8000,
                        0 <= xi < h <= 0x8000,
                ;
                assert(xi * 8 <= 0x40000 && yi * 8 <= 0x40000);
                let sx: i32 = center_x - pixel_w / 2 + xi * 8;
                let sy: i32 = center_y - pixel_h / 2 + yi * 8;
                assert(0 <= sx & 0xff <= 255 && 0 <= sy & 0xff <= 255) by (bit_vector);
                let x = (sx & 0xff) as u8;
                let y = (sy & 0xff) as u8;
                assert((yi * w + xi) < tiles@.len());
                let i = (yi * w + xi) as usize;
                let tile_index = tiles[i];
                let attrs = attributes[i];
                let ghost k = yi * h + xi;
                proof {
                    vstd::arithmetic::div_mod::lemma_fundamental_div_mod_converse(
                        k,
                        h as int,
                        yi as int,
                        xi as int,
                    );
                }
                self.list.push(OamEntry { x, y, tile_index, attributes: attrs });
                assert(self.list@ =~= base + centered_block(
                    center_x,
                    center_y,
                    w,
                    h,
                    tiles@,
                    attributes@,
                    k + 1,
                ));
                xi += 1;
            }
            assert(yi * h + h == (yi + 1) * h) by (nonlinear_arith);
            yi += 1;
        }
    }

    /// Copies the sprites into `table` from slot `offset` on, wrapping at 256.
    pub fn render(&self, offset: u8, table: &mut OamTable)
        ensures
            final(table).0@ == rendered(old(table).0@, self.entries(), offset, self.entries().len() as int),
    {
        let mut i: usize = 0;
        while i < self.list.len()
            invariant
                i <= self.list@.len(),
                table.0@ == rendered(old(table).0@, self.list@, offset, i as int),
            decreases self.list@.len() - i,
        {
            let slot = OamIndex(offset.wrapping_add((i & 0xff) as u8));
            assert((i & 0xff) as int == i % 256) by (bit_vector);
            table.set(slot, self.list[i]);
            i += 1;
        }
    }

    /// Copies `length` sprites into `table` from slot `offset` on, starting at
    /// list entry `start` and wrapping around the list.
    pub fn render_partial(&self, offset: u8, start: u8, length: u8, table: &mut OamTable)
        requires
            length == 0 || self.entries().len() > 0,
        ensures
            final(table).0@ == rendered_partial(old(table).0@, self.entries(), offset, start, length as int),
    {
        let mut i: u8 = 0;
        while i < length
            invariant
                i <= length,
                length == 0 || self.list@.len() > 0,
                table.0@ == rendered_partial(old(table).0@, self.list@, offset, start, i as int),
            decreases length - i,
        {
            let len = self.list.len();
            let k = start.wrapping_add(i);
            assert(k as int == (start + i) % 256);
            let obj = self.list[(k as usize) % len];
            let oam_index = offset.wrapping_add(i);
            assert(oam_index as int == (offset + i) % 256);
            let ghost before = table.0@;
            table.set(OamIndex(oam_index), obj);
            assert(table.0@ == rendered_partial(old(table).0@, self.list@, offset, start, i + 1)) by {
                assert(before == rendered_partial(old(table).0@, self.list@, offset, start, i as int));
                assert(obj == self.list@[((start + i) % 256) % self.list@.len() as int]);
            }
            i += 1;
        }
    }

    /// Removes every sprite.
    pub fn clear(&mut self)
        ensures
            final(self).entries() == Seq::<OamEntry>::empty(),
    {
        self.list.clear();
    }
}

/// A 2 x 2 block of tiles 0x10 to 0x13, with priorities 0 to 3, centered on
/// (`x`, `y`).
pub fn test_list(x: u8, y: u8) -> (list: SpriteList)
    ensures
        list.entries() == centered_block(
            x as i32,
            y as i32,
            2,
            2,
            seq![TileIndex(0x10), TileIndex(0x11), TileIndex(0x12), TileIndex(0x13)],
            seq![
                TileAttributes::empty_spec().priority_set(0),
                TileAttributes::empty_spec().priority_set(1),
                TileAttributes::empty_spec().priority_set(2),
                TileAttributes::empty_spec().priority_set(3),
            ],
            4,
        ),
{
    let mut list = SpriteList::default();
    let id = TileAttributes::empty();
    let p0 = id.with_priority(0);
    let p1 = id.with_priority(1);
    let p2 = id.with_priority(2);
    let p3 = id.with_priority(3);
    let tiles = [TileIndex(0x10), TileIndex(0x11), TileIndex(0x12), TileIndex(0x13)];
    let attributes = [p0, p1, p2, p3];
    proof {
        assert forall|yi: int, xi: int| 0 <= yi < 2 && 0 <= xi < 2 implies #[trigger] (yi * 2 + xi) < 4 by {}
    }
    list.add_sprite_centered(x as i32, y as i32, 2, 2, tiles.as_slice(), attributes.as_slice());
    assert(tiles@ =~= seq![TileIndex(0x10), TileIndex(0x11), TileIndex(0x12), TileIndex(0x13)]);
    list
}

} // verus!
