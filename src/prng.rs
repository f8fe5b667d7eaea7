use vstd::prelude::*;
use vstd::string::StringSliceAdditionalSpecFns;

verus! {

/// `a + b`, wrapping at 2^32.
pub open spec fn wadd32(a: u32, b: u32) -> u32 {
    ((a + b) % 0x1_0000_0000) as u32
}

/// `a + b`, wrapping at 2^16.
pub open spec fn wadd16(a: u16, b: u16) -> u16 {
    ((a + b) % 0x1_0000) as u16
}

/// `x` rotated left by `k` bits, for `k` from 1 to 31.
pub open spec fn rotl32(x: u32, k: u32) -> u32 {
    (x << k) | (x >> (32 - k) as u32)
}

/// `x` rotated left by `k` bits, for `k` from 1 to 15.
pub open spec fn rotl16(x: u16, k: u16) -> u16 {
    (x << k) | (x >> (16 - k) as u16)
}

fn rotate_left_32(x: u32, k: u32) -> (r: u32)
    requires
        0 < k < 32,
    ensures
        r == rotl32(x, k),
{
    (x << k) | (x >> (32 - k))
}

fn rotate_left_16(x: u16, k: u16) -> (r: u16)
    requires
        0 < k < 16,
    ensures
        r == rotl16(x, k),
{
    (x << k) | (x >> (16 - k))
}

/// One step of xoshiro128++ from state `s`: the output and the next state.
pub open spec fn xoshiro128_step(s: Seq<u32>) -> (u32, Seq<u32>) {
    let result = wadd32(rotl32(wadd32(s[0], s[3]), 7), s[0]);
    let t = s[1] << 9u32;
    let s2 = s[2] ^ s[0];
    let s3 = s[3] ^ s[1];
    let s1 = s[1] ^ s2;
    let s0 = s[0] ^ s3;
    (result, seq![s0, s1, s2 ^ t, rotl32(s3, 11)])
}

/// Element-wise exclusive or of two four-word states.
pub open spec fn xor4(a: Seq<u32>, b: Seq<u32>) -> Seq<u32> {
    seq![a[0] ^ b[0], a[1] ^ b[1], a[2] ^ b[2], a[3] ^ b[3]]
}

/// Whether bit `k` (0 to 127) of the four-word `table` is set.
pub open spec fn table_bit(table: Seq<u32>, k: int) -> bool {
    table[k / 32] & (1u32 << (k % 32) as u32) != 0
}

/// The jump walk from step `k` on: at each of the 128 steps, the current
/// state is folded into `acc` when the table's bit is set, then the state
/// advances once.
pub open spec fn jump_walk(table: Seq<u32>, s: Seq<u32>, acc: Seq<u32>, k: int) -> Seq<u32>
    decreases 128 - k,
{
    if k >= 128 || k < 0 {
        acc
    } else {
        let acc2 = if table_bit(table, k) {
            xor4(acc, s)
        } else {
            acc
        };
        jump_walk(table, xoshiro128_step(s).1, acc2, k + 1)
    }
}

pub open spec fn jump_table() -> Seq<u32> {
    seq![0x8764000bu32, 0xf542d2d3u32, 0x6fa035c3u32, 0x77f2db5bu32]
}

pub open spec fn long_jump_table() -> Seq<u32> {
    seq![0xb523952eu32, 0x0b6f099fu32, 0xccf5a0efu32, 0x1c580662u32]
}

/// The big-endian 32-bit word of four bytes.
pub open spec fn be_u32(b0: u8, b1: u8, b2: u8, b3: u8) -> u32 {
    (b0 * 0x100_0000 + b1 * 0x1_0000 + b2 * 0x100 + b3) as u32
}

/// The four big-endian words of 16 bytes.
pub open spec fn seed_of_bytes(b: Seq<u8>) -> Seq<u32> {
    seq![
        be_u32(b[0], b[1], b[2], b[3]),
        be_u32(b[4], b[5], b[6], b[7]),
        be_u32(b[8], b[9], b[10], b[11]),
        be_u32(b[12], b[13], b[14], b[15]),
    ]
}

/// A xoshiro128++ pseudo-random generator with 128 bits of state.
#[derive(Clone, Copy, Debug)]
pub struct Prng32 {
    state: [u32; 4],
}

impl Prng32 {
    /// The four state words.
    pub closed spec fn state(&self) -> Seq<u32> {
        self.state@
    }

    /// A generator seeded with `state`.
    pub fn new(state: [u32; 4]) -> (p: Self)
        ensures
            p.state() == state@,
    {
        Self { state }
    }

    /// A generator seeded with the 16 bytes of `st`, read as four big-endian
    /// words.
    pub fn from_string(st: &str) -> (p: Self)
        requires
            st.spec_bytes().len() == 16,
        ensures
            p.state() == seed_of_bytes(st.spec_bytes()),
    {
        Self::from_byte_slice(st.as_bytes())
    }

    /// A generator seeded with 16 bytes, read as four big-endian words.
    pub fn from_byte_slice(bytes: &[u8]) -> (p: Self)
        requires
            bytes@.len() == 16,
        ensures
            p.state() == seed_of_bytes(bytes@),
    {
        let w0 = be_word(bytes[0], bytes[1], bytes[2], bytes[3]);
        let w1 = be_word(bytes[4], bytes[5], bytes[6], bytes[7]);
        let w2 = be_word(bytes[8], bytes[9], bytes[10], bytes[11]);
        let w3 = be_word(bytes[12], bytes[13], bytes[14], bytes[15]);
        let p = Self::new([w0, w1, w2, w3]);
        assert(p.state() =~= seed_of_bytes(bytes@));
        p
    }

    /// Replaces the state with `seed`.
    pub fn seed(&mut self, seed: [u32; 4])
        ensures
            final(self).state() == seed@,
    {
        self.state = seed;
    }

    /// Advances the state one step and returns the step's output.
    pub fn next(&mut self) -> (r: u32)
        ensures
            (r, final(self).state()) == xoshiro128_step(old(self).state()),
    {
        let s0 = self.state[0];
        let s1 = self.state[1];
        let s2 = self.state[2];
        let s3 = self.state[3];
        let result = rotate_left_32(s0.wrapping_add(s3), 7).wrapping_add(s0);
        let t = s1 << 9;
        let n2 = s2 ^ s0;
        let n3 = s3 ^ s1;
        let n1 = s1 ^ n2;
        let n0 = s0 ^ n3;
        self.state = [n0, n1, n2 ^ t, rotate_left_32(n3, 11)];
        assert(self.state() =~= xoshiro128_step(old(self).state()).1);
        result
    }

    /// Runs the jump walk over `table` and makes its result the state.
    fn jump_with(&mut self, table: [u32; 4])
        ensures
            final(self).state() == jump_walk(table@, old(self).state(), seq![0u32, 0u32, 0u32, 0u32], 0),
    {
        let mut s0: u32 = 0;
        let mut s1: u32 = 0;
        let mut s2: u32 = 0;
        let mut s3: u32 = 0;
        let mut i: usize = 0;
        assert(seq![s0, s1, s2, s3] =~= seq![0u32, 0u32, 0u32, 0u32]);
        while i < 4
            invariant
                i <= 4,
                self.state@.len() == 4,
                jump_walk(table@, old(self).state(), seq![0u32, 0u32, 0u32, 0u32], 0) == jump_walk(
                    table@,
                    self.state(),
                    seq![s0, s1, s2, s3],
                    32 * i,
                ),
            decreases 4 - i,
        {
            let mut b: u32 = 0;
            while b < 32
                invariant
                    i < 4,
                    b <= 32,
                    self.state@.len() == 4,
                    jump_walk(table@, old(self).state(), seq![0u32, 0u32, 0u32, 0u32], 0)
                        == jump_walk(table@, self.state(), seq![s0, s1, s2, s3], 32 * i + b),
                decreases 32 - b,
            {
                let ghost k = 32 * i + b;
                let ghost before = self.state();
                let ghost acc = seq![s0, s1, s2, s3];
                assert(k / 32 == i && k % 32 == b);
                if (table[i] & (1u32 << b)) != 0 {
                    s0 ^= self.state[0];
                    s1 ^= self.state[1];
                    s2 ^= self.state[2];
                    s3 ^= self.state[3];
                    assert(seq![s0, s1, s2, s3] =~= xor4(acc, before));
                }
                self.next();
                b += 1;
            }
            i += 1;
        }
        self.state = [s0, s1, s2, s3];
        assert(self.state() =~= seq![s0, s1, s2, s3]);
    }

    /// Advances the generator as far as 2^64 calls of `next` would.
    pub fn jump(&mut self)
        ensures
            final(self).state() == jump_walk(jump_table(), old(self).state(), seq![0u32, 0u32, 0u32, 0u32], 0),
    {
        let table: [u32; 4] = [0x8764000b, 0xf542d2d3, 0x6fa035c3, 0x77f2db5b];
        assert(table@ =~= jump_table());
        self.jump_with(table);
    }

    /// Advances the generator as far as 2^96 calls of `next` would.
    pub fn long_jump(&mut self)
        ensures
            final(self).state() == jump_walk(long_jump_table(), old(self).state(), seq![0u32, 0u32, 0u32, 0u32], 0),
    {
        let table: [u32; 4] = [0xb523952e, 0x0b6f099f, 0xccf5a0ef, 0x1c580662];
        assert(table@ =~= long_jump_table());
        self.jump_with(table);
    }
}

/// The big-endian word of four bytes.
fn be_word(b0: u8, b1: u8, b2: u8, b3: u8) -> (w: u32)
    ensures
        w == be_u32(b0, b1, b2, b3),
{
    (b0 as u32) * 0x100_0000 + (b1 as u32) * 0x1_0000 + (b2 as u32) * 0x100 + (b3 as u32)
}

/// One step of xoroshiro32++ from state `s`: the output and the next state.
pub open spec fn xoroshiro32_step(s: Seq<u16>) -> (u16, Seq<u16>) {
    let result = wadd16(rotl16(wadd16(s[0], s[1]), 9), s[0]);
    let s1 = s[1] ^ s[0];
    let s0 = rotl16(s[0], 13) ^ s1 ^ (s1 << 5u16);
    (result, seq![s0, rotl16(s1, 10)])
}

/// A xoroshiro32++ pseudo-random generator with 32 bits of state.
#[derive(Clone, Copy, Debug)]
pub struct Prng16 {
    state: [u16; 2],
}

impl Prng16 {
    /// The two state words.
    pub closed spec fn state(&self) -> Seq<u16> {
        self.state@
    }

    /// A generator seeded with `state`.
    pub fn new(state: [u16; 2]) -> (p: Self)
        ensures
            p.state() == state@,
    {
        Self { state }
    }

    /// Replaces the state with `seed`.
    pub fn seed(&mut self, seed: [u16; 2])
        ensures
            final(self).state() == seed@,
    {
        self.state = seed;
    }

    /// Advances the state one step and returns the step's output.
    pub fn next(&mut self) -> (r: u16)
        ensures
            (r, final(self).state()) == xoroshiro32_step(old(self).state()),
    {
        let s0 = self.state[0];
        let s1 = self.state[1];
        let result = rotate_left_16(s0.wrapping_add(s1), 9).wrapping_add(s0);
        let n1 = s1 ^ s0;
        let n0 = rotate_left_16(s0, 13) ^ n1 ^ (n1 << 5);
        self.state = [n0, rotate_left_16(n1, 10)];
        assert(self.state() =~= xoroshiro32_step(old(self).state()).1);
        result
    }
}

/// The 16-bit generator that the games shuffle with.
pub type Prng = Prng16;

} // verus!
