use vstd::prelude::*;

use crate::constants::{NUM_OAM_ENTRIES, SCREEN_HEIGHT, TILE_HEIGHT, TILE_WIDTH};
use crate::layer::wrap_sub;
use crate::tile::{priority_bits, rotation_bits, subpalette_bits, TileAttributes, TileIndex};

verus! {

broadcast use vstd::array::group_array_axioms;

/// Whether `v` lies in the 8-wide span that starts at `start`, wrapping at 256.
pub open spec fn in_span(start: u8, v: u8) -> bool {
    wrap_sub(v, start) < 8
}

/// Whether `e` is the sprite that a new table holds: hidden below the screen
/// at x 0, showing tile 0 with subpalette 0, no flip bits and priority 1.
pub open spec fn is_default_sprite(e: OamEntry) -> bool {
    &&& e.x == 0
    &&& e.y == SCREEN_HEIGHT
    &&& e.tile_index == TileIndex(0)
    &&& e.attributes.bits() == 0b0100_0000
    &&& subpalette_bits(e.attributes.bits()) == 0
    &&& rotation_bits(e.attributes.bits()) == 0
    &&& priority_bits(e.attributes.bits()) == 1
}

/// One sprite: a position, a tile and its attributes.
#[derive(Debug, Clone, Copy, PartialEq, Eq, Structural)]
pub struct OamEntry {
    pub x: u8,
    pub y: u8,
    pub tile_index: TileIndex,
    pub attributes: TileAttributes,
}

impl Default for OamEntry {
    /// A hidden sprite at x 0 with tile 0 and the default sprite attributes.
    fn default() -> (e: OamEntry)
        ensures
            is_default_sprite(e),
    {
        OamEntry {
            x: 0,
            y: SCREEN_HEIGHT as u8,
            tile_index: TileIndex(0),
            attributes: TileAttributes::oam_default(),
        }
    }
}

impl OamEntry {
    pub fn new(x: u8, y: u8, tile_index: TileIndex, attributes: TileAttributes) -> (e: OamEntry)
        ensures
            e == (OamEntry { x, y, tile_index, attributes }),
    {
        OamEntry { x, y, tile_index, attributes }
    }

    /// Whether screen pixel (`x`, `y`) lies in this sprite's 8x8 box; both
    /// axes wrap at 256.
    pub fn bounding_box_contains_pixel(&self, x: u8, y: u8) -> (r: bool)
        ensures
            r == (in_span(self.x, x) && in_span(self.y, y)),
    {
        span_contains(self.x, TILE_WIDTH as u8, x) && span_contains(self.y, TILE_HEIGHT as u8, y)
    }

    /// Moves the sprite to the row just below the screen, where it covers no
    /// scanline.
    pub fn hide_sprite(&mut self)
        ensures
            *final(self) == (OamEntry { y: SCREEN_HEIGHT as u8, ..*old(self) }),
    {
        self.y = SCREEN_HEIGHT as u8;
    }
}

/// Whether `v` lies in the `width`-wide span that starts at `start`, wrapping
/// at 256.
pub fn span_contains(start: u8, width: u8, v: u8) -> (r: bool)
    ensures
        r == (wrap_sub(v, start) < width),
{
    let end = start.wrapping_add(width);
    if start <= end {
        v >= start && v < end
    } else {
        v >= start || v < end
    }
}

/// An index into the sprite table.
#[derive(Debug, Default, Clone, Copy, PartialEq, Eq, Structural)]
pub struct OamIndex(pub u8);

/// The fixed table of 256 sprites; slot order is paint order.
#[derive(Clone, Copy)]
pub struct OamTable(pub [OamEntry; NUM_OAM_ENTRIES]);

impl Default for OamTable {
    /// A table of default, hidden sprites.
    fn default() -> (t: OamTable)
        ensures
            forall|i: int| 0 <= i < NUM_OAM_ENTRIES ==> is_default_sprite(#[trigger] t.0@[i]),
    {
        OamTable([OamEntry::default(); NUM_OAM_ENTRIES])
    }
}

impl OamTable {
    pub fn get(&self, index: OamIndex) -> (e: &OamEntry)
        ensures
            *e == self.0@[index.0 as int],
    {
        &self.0[index.0 as usize]
    }

    pub fn set(&mut self, index: OamIndex, entry: OamEntry)
        ensures
            final(self).0@ == old(self).0@.update(index.0 as int, entry),
    {
        self.0[index.0 as usize] = entry;
    }

    /// Hides the sprite in slot `index`, keeping its other fields.
    pub fn hide_slot(&mut self, index: OamIndex)
        ensures
            final(self).0@ == old(self).0@.update(
                index.0 as int,
                OamEntry { y: SCREEN_HEIGHT as u8, ..old(self).0@[index.0 as int] },
            ),
    {
        let mut e = self.0[index.0 as usize];
        e.hide_sprite();
        self.0[index.0 as usize] = e;
    }
}

} // verus!
