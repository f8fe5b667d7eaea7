use vstd::prelude::*;

use crate::prng::{xoroshiro32_step, Prng};

verus! {

broadcast use {
    vstd::seq_lib::to_multiset_update,
    vstd::seq_lib::to_multiset_contains,
    vstd::multiset::group_multiset_axioms,
};

/// The Fisher-Yates pass over positions `i` down to 1 of `v`, drawing from a
/// generator in state `s`: position `i` is exchanged with position
/// `draw % (i + 1)`. The result and the generator's final state.
pub open spec fn shuffle_from<T>(v: Seq<T>, s: Seq<u16>, i: int) -> (Seq<T>, Seq<u16>)
    decreases i,
{
    if i <= 0 {
        (v, s)
    } else {
        let step = xoroshiro32_step(s);
        let j = step.0 as int % (i + 1);
        shuffle_from(v.update(i, v[j]).update(j, v[i]), step.1, i - 1)
    }
}

/// Relies on `slice::swap`: the elements at `i` and `j` trade places.
#[verifier::external_body]
fn swap_elements<T>(v: &mut Vec<T>, i: usize, j: usize)
    requires
        i < old(v)@.len(),
        j < old(v)@.len(),
    ensures
        final(v)@ == old(v)@.update(i as int, old(v)@[j as int]).update(j as int, old(v)@[i as int]),
{
    v.swap(i, j)
}

/// Shuffles `vec` in place with a Fisher-Yates pass driven by `rng`. The
/// result holds the same elements.
pub fn shuffle<T>(rng: &mut Prng, vec: &mut Vec<T>)
    ensures
        (final(vec)@, final(rng).state()) == shuffle_from(old(vec)@, old(rng).state(), old(vec)@.len() - 1),
        final(vec)@.to_multiset() == old(vec)@.to_multiset(),
{
    let mut i: usize = vec.len();
    while i > 1
        invariant
            i <= vec@.len(),
            vec@.len() == old(vec)@.len(),
            i == 0 ==> vec@.len() == 0,
            shuffle_from(old(vec)@, old(rng).state(), old(vec)@.len() - 1) == shuffle_from(
                vec@,
                rng.state(),
                i - 1,
            ),
            vec@.to_multiset() == old(vec)@.to_multiset(),
        decreases i,
    {
        i -= 1;
        let r = rng.next();
        let j = r as usize % (i + 1);
        let ghost before = vec@;
        swap_elements(vec, i, j);
        proof {
            let mid = before.update(i as int, before[j as int]);
            assert(j <= i);
            let m = before.to_multiset();
            assert(before.contains(before[i as int]));
            assert(before.contains(before[j as int]));
            assert(mid.to_multiset() == m.insert(before[j as int]).remove(before[i as int]));
            assert(vec@.to_multiset() == mid.to_multiset().insert(before[i as int]).remove(mid[j as int]));
            assert(mid[j as int] == before[j as int]);
            assert(vec@.to_multiset() =~= m);
        }
    }
}

/// The seed that a clock reading gives: the low 16 bits of the whole
/// seconds and of the nanoseconds.
pub fn seed_from_time(secs: u64, subsec_nanos: u32) -> (s: [u16; 2])
    ensures
        s@ == seq![(secs % 0x1_0000) as u16, (subsec_nanos % 0x1_0000) as u16],
{
    let s = [(secs % 0x1_0000) as u16, (subsec_nanos % 0x1_0000) as u16];
    assert(s@ =~= seq![(secs % 0x1_0000) as u16, (subsec_nanos % 0x1_0000) as u16]);
    s
}

} // verus!
