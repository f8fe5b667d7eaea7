use vstd::prelude::*;

use crate::constants::{NUM_PALETTE_ENTRIES, SUBPALETTE_SIZE};

verus! {

/// The packed 32-bit ARGB value of an opaque color.
pub open spec fn argb_of(r: u8, g: u8, b: u8) -> u32 {
    (0xff00_0000 + r * 0x1_0000 + g * 0x100 + b) as u32
}

/// A 24-bit RGB color, stored as its opaque 32-bit ARGB form.
#[derive(Debug, Clone, Copy, PartialEq, Eq, Structural)]
pub struct Rgb(u32);

impl Default for Rgb {
    /// The all-zero value, which a fresh framebuffer holds.
    fn default() -> (c: Rgb)
        ensures
            c.argb() == 0,
    {
        Rgb(0)
    }
}

impl Rgb {
    /// The packed ARGB value of this color.
    pub closed spec fn argb(self) -> u32 {
        self.0
    }

    pub fn new(r: u8, g: u8, b: u8) -> (c: Rgb)
        ensures
            c.argb() == argb_of(r, g, b),
    {
        Rgb(0xff00_0000u32 + (r as u32) * 0x1_0000 + (g as u32) * 0x100 + (b as u32))
    }

    /// Builds an opaque color from the red, green and blue bytes of a packed
    /// ARGB value (bits 16 to 23, 8 to 15 and 0 to 7); the alpha byte is not
    /// read.
    pub fn from_argb_u32(argb: &u32) -> (c: Rgb)
        ensures
            c.argb() == argb_of(
                (*argb / 0x1_0000 % 0x100) as u8,
                (*argb / 0x100 % 0x100) as u8,
                (*argb % 0x100) as u8,
            ),
    {
        let v = *argb;
        Rgb::new((v / 0x1_0000 % 0x100) as u8, (v / 0x100 % 0x100) as u8, (v % 0x100) as u8)
    }

    /// Two colors with the same packed value are the same color.
    pub proof fn lemma_argb_determines(a: Rgb, b: Rgb)
        requires
            a.argb() == b.argb(),
        ensures
            a == b,
    {
    }

    pub fn as_argb_u32(&self) -> (r: u32)
        ensures
            r == self.argb(),
    {
        self.0
    }
}

/// Packing an opaque color into ARGB and reading it back gives the color:
/// the red, green and blue bytes sit at bits 16, 8 and 0.
pub proof fn lemma_argb_round_trip(r: u8, g: u8, b: u8)
    ensures
        argb_of(r, g, b) / 0x1_0000 % 0x100 == r,
        argb_of(r, g, b) / 0x100 % 0x100 == g,
        argb_of(r, g, b) % 0x100 == b,
        argb_of(
            (argb_of(r, g, b) / 0x1_0000 % 0x100) as u8,
            (argb_of(r, g, b) / 0x100 % 0x100) as u8,
            (argb_of(r, g, b) % 0x100) as u8,
        ) == argb_of(r, g, b),
{
    let v = argb_of(r, g, b) as int;
    assert(v == 0xff00_0000 + r * 0x1_0000 + g * 0x100 + b);
    assert(v / 0x1_0000 == 0xff00 + r) by {
        vstd::arithmetic::div_mod::lemma_fundamental_div_mod_converse(v, 0x1_0000, 0xff00 + r, g * 0x100 + b);
    }
    assert((0xff00 + r) % 0x100 == r) by {
        vstd::arithmetic::div_mod::lemma_fundamental_div_mod_converse(0xff00 + r, 0x100, 0xff, r as int);
    }
    assert(v / 0x100 == 0xff_0000 + r * 0x100 + g) by {
        vstd::arithmetic::div_mod::lemma_fundamental_div_mod_converse(v, 0x100, 0xff_0000 + r * 0x100 + g, b as int);
    }
    assert((0xff_0000 + r * 0x100 + g) % 0x100 == g) by {
        vstd::arithmetic::div_mod::lemma_fundamental_div_mod_converse(
            0xff_0000 + r * 0x100 + g,
            0x100,
            0xff00 + r as int,
            g as int,
        );
    }
    assert(v % 0x100 == b) by {
        vstd::arithmetic::div_mod::lemma_fundamental_div_mod_converse(v, 0x100, 0xff_0000 + r * 0x100 + g, b as int);
    }
}

/// An index into the palette.
#[derive(Debug, Default, Clone, Copy, PartialEq, Eq, Structural)]
pub struct PaletteIndex(pub u8);

impl PaletteIndex {
    pub fn new(s: u8) -> (p: PaletteIndex)
        ensures
            p.0 == s,
    {
        PaletteIndex(s)
    }

    pub fn get(&self) -> (r: &u8)
        ensures
            *r == self.0,
    {
        &self.0
    }
}

/// A value of 0 to 7 read from a tile's bitplanes; 0 is transparent.
#[derive(Debug, Default, Clone, Copy, PartialEq, Eq, Structural)]
pub struct RawPixel(pub u8);

/// The palette index that subpalette `s` gives to raw pixel `r`.
pub open spec fn colorize(s: u8, r: u8) -> u8 {
    ((s * SUBPALETTE_SIZE + r) % 256) as u8
}

/// Selects an 8-color window of the palette.
#[derive(Debug, Default, Clone, Copy, PartialEq, Eq, Structural)]
pub struct Subpalette(pub u8);

impl Subpalette {
    pub fn new(s: u8) -> (p: Subpalette)
        ensures
            p.0 == s,
    {
        Subpalette(s)
    }

    pub fn get(&self) -> (r: &u8)
        ensures
            *r == self.0,
    {
        &self.0
    }

    /// The palette index of `pixel` in this subpalette: `subpalette * 8 + pixel`,
    /// wrapping at 256.
    pub fn colorize_pixel(&self, pixel: RawPixel) -> (p: PaletteIndex)
        ensures
            p.0 == colorize(self.0, pixel.0),
    {
        PaletteIndex(self.0.wrapping_mul(SUBPALETTE_SIZE as u8).wrapping_add(pixel.0))
    }
}

/// The three flip bits of a tile's attributes, as one value.
#[derive(Debug, Default, Clone, Copy, PartialEq, Eq, Structural)]
pub struct Rotation(pub u8);

/// The global color table.
#[derive(Clone, Copy)]
pub struct Palette([Rgb; NUM_PALETTE_ENTRIES]);

impl Palette {
    /// The palette's entries, in index order.
    pub closed spec fn entries(self) -> Seq<Rgb> {
        self.0@
    }

    pub fn new(p: [Rgb; NUM_PALETTE_ENTRIES]) -> (r: Palette)
        ensures
            r.entries() == p@,
    {
        Palette(p)
    }

    /// The color at `index`.
    pub fn get(&self, index: PaletteIndex) -> (c: Rgb)
        requires
            index.0 < NUM_PALETTE_ENTRIES,
        ensures
            c == self.entries()[index.0 as int],
    {
        self.0[index.0 as usize]
    }

    /// Overwrites the color at `index`.
    pub fn set(&mut self, index: PaletteIndex, c: Rgb)
        requires
            index.0 < NUM_PALETTE_ENTRIES,
        ensures
            final(self).entries() == old(self).entries().update(index.0 as int, c),
    {
        self.0[index.0 as usize] = c;
    }

    /// A palette whose every entry is black.
    pub fn black() -> (r: Palette)
        ensures
            r.entries().len() == NUM_PALETTE_ENTRIES,
            forall|i: int| 0 <= i < NUM_PALETTE_ENTRIES ==> r.entries()[i].argb() == 0,
    {
        Palette([Rgb(0); NUM_PALETTE_ENTRIES])
    }
}

} // verus!
