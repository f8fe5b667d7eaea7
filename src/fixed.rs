use vstd::prelude::*;

verus! {

/// A signed fixed-point number with 8 integer and 8 fraction bits.
#[allow(non_camel_case_types)]
#[derive(Debug, Clone, Copy, PartialEq, Eq, Structural)]
pub struct i8p8(i16);

/// An unsigned fixed-point number with 8 integer and 8 fraction bits.
#[allow(non_camel_case_types)]
#[derive(Debug, Clone, Copy, PartialEq, Eq, Structural)]
pub struct u8p8(u16);

/// An unsigned fixed-point number with 16 integer and 16 fraction bits.
#[allow(non_camel_case_types)]
#[derive(Debug, Clone, Copy, PartialEq, Eq, Structural)]
pub struct u16p16(u32);

/// A signed fixed-point number with 16 integer and 16 fraction bits.
#[allow(non_camel_case_types)]
#[derive(Debug, Clone, Copy, PartialEq, Eq, Structural)]
pub struct i16p16(i32);

impl i8p8 {
    /// The raw bits: the value times 256.
    pub closed spec fn raw(self) -> i16 {
        self.0
    }

    pub fn from_raw(r: i16) -> (v: i8p8)
        ensures
            v.raw() == r,
    {
        i8p8(r)
    }

    /// The raw bits.
    pub fn to_raw(self) -> (r: i16)
        ensures
            r == self.raw(),
    {
        self.0
    }

    /// Drops the low 8 fraction bits of `a` and keeps the next 16 bits.
    pub fn from_i16p16_truncated(a: i16p16) -> (v: i8p8)
        ensures
            v.raw() == (a.raw() >> 8i32) as i16,
    {
        let x = a.0;
        let r = (#[verifier::truncate] (((x >> 8) & 0xffff) as i16));
        assert((((x >> 8i32) & 0xffff) as i16) == ((x >> 8i32) as i16)) by (bit_vector);
        i8p8(r)
    }

    /// The exact product, with 16 fraction bits.
    pub fn full_mul(self, b: i8p8) -> (p: i16p16)
        ensures
            p.raw() == self.raw() * b.raw(),
    {
        assert(-0x8000 * 0x8000 <= self.0 * b.0 <= 0x8000 * 0x8000) by (nonlinear_arith)
            requires
                -0x8000 <= self.0 <= 0x7fff,
                -0x8000 <= b.0 <= 0x7fff,
        ;
        i16p16((self.0 as i32) * (b.0 as i32))
    }
}

impl u8p8 {
    /// The raw bits: the value times 256.
    pub closed spec fn raw(self) -> u16 {
        self.0
    }

    pub fn from_raw(r: u16) -> (v: u8p8)
        ensures
            v.raw() == r,
    {
        u8p8(r)
    }

    /// The raw bits.
    pub fn to_raw(self) -> (r: u16)
        ensures
            r == self.raw(),
    {
        self.0
    }

    /// Drops the low 8 fraction bits of `a` and keeps the next 16 bits.
    pub fn from_u16p16_truncated(a: u16p16) -> (v: u8p8)
        ensures
            v.raw() == (a.raw() / 256) % 0x1_0000,
    {
        let x = a.0;
        let r = ((x >> 8) & 0xffff) as u16;
        assert((x >> 8u32) & 0xffff == (x / 256) % 0x1_0000) by (bit_vector);
        u8p8(r)
    }

    /// The exact product, with 16 fraction bits.
    pub fn full_mul(self, b: u8p8) -> (p: u16p16)
        ensures
            p.raw() == self.raw() * b.raw(),
    {
        assert(self.0 * b.0 <= 0xffff * 0xffff) by (nonlinear_arith)
            requires
                self.0 <= 0xffff,
                b.0 <= 0xffff,
        ;
        u16p16((self.0 as u32) * (b.0 as u32))
    }
}

impl u16p16 {
    /// The raw bits: the value times 65536.
    pub closed spec fn raw(self) -> u32 {
        self.0
    }

    pub fn from_raw(r: u32) -> (v: u16p16)
        ensures
            v.raw() == r,
    {
        u16p16(r)
    }

    /// The raw bits.
    pub fn to_raw(self) -> (r: u32)
        ensures
            r == self.raw(),
    {
        self.0
    }
}

impl i16p16 {
    /// The raw bits: the value times 65536.
    pub closed spec fn raw(self) -> i32 {
        self.0
    }

    /// The raw bits.
    pub fn to_raw(self) -> (r: i32)
        ensures
            r == self.raw(),
    {
        self.0
    }
}

} // verus!
