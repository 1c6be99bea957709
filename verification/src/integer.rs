//! Mutators for unsigned integers.
//!
//! These mutators avoid repetitions and cover the whole numeric range quickly:
//! the deterministic enumeration of fresh values follows a binary-search-like
//! partition of the range, so that a byte sequence such as 127, 191, 63, ...
//! spans the space early on. Mutations first nudge the value a little
//! (+1, -1, +2, -2, ...), then fall back to the same space-filling enumeration.
use vstd::prelude::*;

use crate::mutator::Mutator;
use crate::rng::{rng_i16, rng_i32, rng_i64, rng_i8, rng_new, rng_u16, rng_u32, rng_u64, rng_u8};

verus! {

/// The value that the interval-splitting enumeration of `[low, high]`
/// assigns to cursor `step`.
///
/// Step 0 maps to the midpoint; odd steps continue in the upper half, even
/// steps in the lower half, so that for an interval of `n` values the steps
/// `0 ..= n - 1` enumerate every value exactly once.
pub open spec fn binary_search_arbitrary_spec(low: int, high: int, step: int) -> int
    decreases high - low,
{
    if low >= high {
        low
    } else if low + 1 == high {
        if step % 2 == 0 {
            high
        } else {
            low
        }
    } else {
        let next = low + (high - low) / 2;
        if step == 0 {
            next
        } else if step % 2 == 1 {
            binary_search_arbitrary_spec(next + 1, high, step / 2)
        } else {
            binary_search_arbitrary_spec(low, next - 1, (step - 1) / 2)
        }
    }
}

/// Picks the `step`-th element of the interval-splitting enumeration of
/// `[low, high]`.
pub fn binary_search_arbitrary(low: u8, high: u8, step: u64) -> (r: u8)
    requires
        low <= high,
    ensures
        r as int == binary_search_arbitrary_spec(low as int, high as int, step as int),
        low <= r <= high,
    decreases high - low,
{
    if low == high {
        low
    } else if high - low == 1 {
        if step % 2 == 0 {
            high
        } else {
            low
        }
    } else {
        let next = low + (high - low) / 2;
        if step == 0 {
            next
        } else if step % 2 == 1 {
            binary_search_arbitrary(next + 1, high, step / 2)
        } else {
            binary_search_arbitrary(low, next - 1, (step - 1) / 2)
        }
    }
}

/// Some step of the interval-splitting enumeration of `[low, high]`
/// reaches the value `v`.
pub open spec fn binary_search_arbitrary_reaches(low: int, high: int, v: int) -> bool {
    exists|s: int|
        0 <= s <= high - low && #[trigger] binary_search_arbitrary_spec(low, high, s) == v
}

/// Law: the interval-splitting enumeration is a permutation of its interval.
/// For `[low, high]`, the steps `0 ..= high - low` hit values inside the
/// interval, pairwise distinct, and every value of the interval is hit.
///
/// In particular the first 256 values that `U8Mutator::ordered_arbitrary`
/// produces (which are `binary_search_arbitrary_spec(0, 255, step)` for
/// steps 0 to 255) are a permutation of the whole byte range, after which
/// it returns `None`.
pub proof fn lemma_binary_search_arbitrary_bijective(low: int, high: int)
    requires
        low <= high,
    ensures
        forall|s: int|
            0 <= s <= high - low ==> low <= #[trigger] binary_search_arbitrary_spec(low, high, s)
                <= high,
        forall|s1: int, s2: int|
            0 <= s1 <= high - low && 0 <= s2 <= high - low && s1 != s2
                ==> binary_search_arbitrary_spec(low, high, s1) != binary_search_arbitrary_spec(
                low,
                high,
                s2,
            ),
        forall|v: int|
            low <= v <= high ==> #[trigger] binary_search_arbitrary_reaches(low, high, v),
    decreases high - low,
{
    let d = high - low;
    if low == high {
        assert(binary_search_arbitrary_spec(low, high, 0) == low);
        assert(forall|v: int|
            low <= v <= high ==> #[trigger] binary_search_arbitrary_reaches(low, high, v));
    } else if low + 1 == high {
        assert(binary_search_arbitrary_spec(low, high, 0) == high);
        assert(binary_search_arbitrary_spec(low, high, 1) == low);
        assert(forall|v: int|
            low <= v <= high ==> #[trigger] binary_search_arbitrary_reaches(low, high, v));
    } else {
        let m = d / 2;
        let next = low + m;
        lemma_binary_search_arbitrary_bijective(next + 1, high);
        lemma_binary_search_arbitrary_bijective(low, next - 1);
        assert(d == 2 * m + d % 2);
        // Each step lands in the branch's own sub-interval.
        assert forall|s: int| 0 <= s <= d implies low <= #[trigger] binary_search_arbitrary_spec(
            low,
            high,
            s,
        ) <= high by {
            if s == 0 {
                assert(binary_search_arbitrary_spec(low, high, s) == next);
            } else if s % 2 == 1 {
                assert(s == 2 * (s / 2) + 1);
                assert(0 <= s / 2 <= high - (next + 1));
                assert(binary_search_arbitrary_spec(low, high, s)
                    == binary_search_arbitrary_spec(next + 1, high, s / 2));
            } else {
                assert(s - 1 == 2 * ((s - 1) / 2) + 1);
                assert(0 <= (s - 1) / 2 <= (next - 1) - low);
                assert(binary_search_arbitrary_spec(low, high, s)
                    == binary_search_arbitrary_spec(low, next - 1, (s - 1) / 2));
            }
        }
        // Distinct steps give distinct values: the three branches cover
        // disjoint parts of the interval, and within a branch the inner
        // steps differ.
        assert forall|s1: int, s2: int|
            0 <= s1 <= d && 0 <= s2 <= d && s1 != s2 implies binary_search_arbitrary_spec(
            low,
            high,
            s1,
        ) != binary_search_arbitrary_spec(low, high, s2) by {
            if s1 == 0 {
                assert(binary_search_arbitrary_spec(low, high, s1) == next);
            } else if s1 % 2 == 1 {
                assert(s1 == 2 * (s1 / 2) + 1);
                assert(0 <= s1 / 2 <= high - (next + 1));
                assert(binary_search_arbitrary_spec(low, high, s1)
                    == binary_search_arbitrary_spec(next + 1, high, s1 / 2));
                assert(binary_search_arbitrary_spec(low, high, s1) >= next + 1);
            } else {
                assert(s1 - 1 == 2 * ((s1 - 1) / 2) + 1);
                assert(0 <= (s1 - 1) / 2 <= (next - 1) - low);
                assert(binary_search_arbitrary_spec(low, high, s1)
                    == binary_search_arbitrary_spec(low, next - 1, (s1 - 1) / 2));
                assert(binary_search_arbitrary_spec(low, high, s1) <= next - 1);
            }
            if s2 == 0 {
                assert(binary_search_arbitrary_spec(low, high, s2) == next);
            } else if s2 % 2 == 1 {
                assert(s2 == 2 * (s2 / 2) + 1);
                assert(0 <= s2 / 2 <= high - (next + 1));
                assert(binary_search_arbitrary_spec(low, high, s2)
                    == binary_search_arbitrary_spec(next + 1, high, s2 / 2));
                assert(binary_search_arbitrary_spec(low, high, s2) >= next + 1);
            } else {
                assert(s2 - 1 == 2 * ((s2 - 1) / 2) + 1);
                assert(0 <= (s2 - 1) / 2 <= (next - 1) - low);
                assert(binary_search_arbitrary_spec(low, high, s2)
                    == binary_search_arbitrary_spec(low, next - 1, (s2 - 1) / 2));
                assert(binary_search_arbitrary_spec(low, high, s2) <= next - 1);
            }
            if s1 % 2 == 1 && s2 % 2 == 1 {
                assert(s1 / 2 != s2 / 2);
            } else if s1 != 0 && s2 != 0 && s1 % 2 == 0 && s2 % 2 == 0 {
                assert((s1 - 1) / 2 != (s2 - 1) / 2);
            }
        }
        // Every value of the interval is reached: by a step of the branch
        // that owns its sub-interval.
        assert forall|v: int| low <= v <= high implies #[trigger] binary_search_arbitrary_reaches(
            low,
            high,
            v,
        ) by {
            if v == next {
                assert(binary_search_arbitrary_spec(low, high, 0) == v);
            } else if v >= next + 1 {
                assert(binary_search_arbitrary_reaches(next + 1, high, v));
                let k = choose|k: int|
                    0 <= k <= high - (next + 1) && #[trigger] binary_search_arbitrary_spec(
                        next + 1,
                        high,
                        k,
                    ) == v;
                assert((2 * k + 1) % 2 == 1 && (2 * k + 1) / 2 == k);
                assert(binary_search_arbitrary_spec(low, high, 2 * k + 1) == v);
                assert(0 <= 2 * k + 1 <= d);
            } else {
                assert(binary_search_arbitrary_reaches(low, next - 1, v));
                let k = choose|k: int|
                    0 <= k <= (next - 1) - low && #[trigger] binary_search_arbitrary_spec(
                        low,
                        next - 1,
                        k,
                    ) == v;
                assert((2 * k + 2) % 2 == 0 && (2 * k + 2 - 1) / 2 == k);
                assert(binary_search_arbitrary_spec(low, high, 2 * k + 2) == v);
                assert(0 <= 2 * k + 2 <= d);
            }
        }
    }
}

/// The value that the `step`-th deterministic mutation turns `v` into:
/// steps 0 to 7 nudge the value by +1, -1, +2, -2, +3, -3, +4, -4 with
/// wrap-around, and later steps jump through the space-filling enumeration.
pub open spec fn u8_mutated(v: int, step: int) -> int {
    if step < 8 {
        let nudge = step + 2;
        if nudge % 2 == 0 {
            (v + nudge / 2) % 256
        } else {
            (v - nudge / 2) % 256
        }
    } else {
        binary_search_arbitrary_spec(0, 255, (step - 7) % 256)
    }
}

/// A mutator for `u8` values. Every `u8` has complexity 8 (its size in bits).
pub struct U8Mutator {
    shuffled_integers: Vec<u8>,
    rng: fastrand::Rng,
}

impl U8Mutator {
    /// The 256-entry table of shuffled bytes that drives the space-filling
    /// enumeration.
    pub closed spec fn shuffled(self) -> Seq<u8> {
        self.shuffled_integers@
    }

    #[verifier::type_invariant]
    spec fn table_well_formed(self) -> bool {
        &&& self.shuffled_integers@.len() == 256
        &&& forall|i: int|
            0 <= i < 256 ==> self.shuffled_integers@[i] as int == binary_search_arbitrary_spec(
                0,
                255,
                i,
            )
    }

    /// The `step`-th value of the uniform permutation of the whole range:
    /// the shuffled-bytes table indexed with the low 8 bits of `step`.
    fn uniform_permutation(&self, step: u64) -> (r: u8)
        ensures
            r as int == binary_search_arbitrary_spec(0, 255, (step % 256) as int),
    {
        proof {
            use_type_invariant(self);
            assert((step & 255) == step % 256) by (bit_vector);
        }
        let idx = (step & 255) as usize;
        self.shuffled_integers[idx]
    }
}

impl Default for U8Mutator {
    /// Precomputes the shuffled-bytes table by running the interval-splitting
    /// enumeration over the whole byte range.
    fn default() -> (r: Self)
        ensures
            r.shuffled().len() == 256,
            forall|i: int|
                0 <= i < 256 ==> r.shuffled()[i] as int == binary_search_arbitrary_spec(0, 255, i),
    {
        let mut table: Vec<u8> = Vec::new();
        let mut i: usize = 0;
        while i < 256
            invariant
                i <= 256,
                table@.len() == i,
                forall|j: int|
                    0 <= j < i ==> table@[j] as int == binary_search_arbitrary_spec(0, 255, j),
            decreases 256 - i,
        {
            table.push(binary_search_arbitrary(0, 255, i as u64));
            i += 1;
        }
        U8Mutator { shuffled_integers: table, rng: rng_new() }
    }
}

impl Mutator<u8> for U8Mutator {
    type Cache = ();

    type MutationStep = u64;

    type ArbitraryStep = u64;

    type UnmutateToken = u8;

    type RecursingPartIndex = ();

    open spec fn valid(&self, v: u8, c: ()) -> bool {
        true
    }

    open spec fn spec_min_complexity(&self) -> u64 {
        8
    }

    open spec fn spec_max_complexity(&self) -> u64 {
        8
    }

    open spec fn spec_complexity(&self, v: u8, c: ()) -> u64 {
        8
    }

    open spec fn spec_unmutate(&self, v: u8, c: (), t: u8) -> (u8, ()) {
        (t, ())
    }

    fn default_arbitrary_step(&self) -> u64 {
        0
    }

    fn validate_value(&self, value: &u8) -> (r: Option<()>)
        ensures
            r is Some,
    {
        Some(())
    }

    fn default_mutation_step(&self, value: &u8, cache: &()) -> u64 {
        0
    }

    fn min_complexity(&self) -> u64 {
        8
    }

    fn max_complexity(&self) -> u64 {
        8
    }

    fn complexity(&self, value: &u8, cache: &()) -> u64 {
        8
    }

    /// Enumerates every `u8` exactly once, in the shuffled order, then
    /// returns `None`.
    fn ordered_arbitrary(&self, step: &mut u64, max_cplx: u64) -> (r: Option<(u8, u64)>)
        ensures
            *old(step) > 255 ==> r is None && *final(step) == *old(step),
            *old(step) <= 255 ==> (r matches Some((v, c)) && v as int
                == binary_search_arbitrary_spec(0, 255, *old(step) as int) && c == 8
                && *final(step) == *old(step) + 1),
    {
        if *step > 255 {
            None
        } else {
            let value = self.uniform_permutation(*step);
            *step += 1;
            Some((value, 8))
        }
    }

    fn random_arbitrary(&self, max_cplx: u64) -> (r: (u8, u64))
        ensures
            r.1 == 8,
    {
        (self.uniform_permutation(rng_u64(&self.rng)), 8)
    }

    /// The first 8 steps nudge the value by +1, -1, +2, -2, +3, -3, +4, -4;
    /// later steps jump through the uniform permutation of the range. The
    /// token is the previous value.
    fn ordered_mutate(&self, value: &mut u8, cache: &mut (), step: &mut u64, max_cplx: u64) -> (r:
        Option<(u8, u64)>)
        ensures
            *old(step) > 265 ==> r is None,
            *old(step) <= 265 ==> (r matches Some((t, c)) && t == *old(value) && c == 8
                && *final(value) as int == u8_mutated(*old(value) as int, *old(step) as int)
                && *final(step) == *old(step) + 1),
    {
        if *step > 265 {
            return None;
        }
        let token = *value;
        if *step < 8 {
            let nudge = (*step + 2) as u8;
            if nudge % 2 == 0 {
                *value = value.wrapping_add(nudge / 2);
            } else {
                *value = value.wrapping_sub(nudge / 2);
            }
        } else {
            *value = self.uniform_permutation(*step - 7);
        }
        *step += 1;
        Some((token, 8))
    }

    fn random_mutate(&self, value: &mut u8, cache: &mut (), max_cplx: u64) -> (r: (u8, u64))
        ensures
            r == (*old(value), 8u64),
    {
        let token = *value;
        *value = rng_u8(&self.rng);
        (token, 8)
    }

    fn unmutate(&self, value: &mut u8, cache: &mut (), t: u8)
        ensures
            *final(value) == t,
    {
        *value = t;
    }

    fn default_recursing_part_index(&self, value: &u8, cache: &()) -> () {
        ()
    }

    fn recursing_part<'a, V, N>(&self, parent: &N, value: &'a u8, index: &mut ()) -> (r: Option<
        &'a V,
    >) where V: Clone + 'static, N: 'static
        ensures
            r is None,
    {
        None
    }
}

/// The second (low) byte pick of a `u16`: the next 8 bits of `step` XORed
/// with the high-byte pick.
pub open spec fn u16_uniform_permutation(table: Seq<u8>, step: u64) -> u16 {
    let first = table[(step & 255) as int] as u16;
    let idx = ((step >> 8) ^ (first as u64)) & 255;
    let second = table[idx as int] as u16;
    ((first as u16) << 8) | second
}

/// The value that the `step`-th deterministic mutation turns a `u16` into,
/// with the same nudge-then-jump plan as for bytes.
pub open spec fn u16_mutated(table: Seq<u8>, v: u16, step: u64) -> int {
    if step < 8 {
        let nudge = step + 2;
        if nudge % 2 == 0 {
            (v + nudge / 2) % 0x1_0000
        } else {
            (v - nudge / 2) % 0x1_0000
        }
    } else {
        u16_uniform_permutation(table, (step - 7) as u64) as int
    }
}

/// A mutator for `u16` values. As for the other integer mutators, every
/// value has complexity 8.
pub struct U16Mutator {
    shuffled_integers: Vec<u8>,
    rng: fastrand::Rng,
}

impl U16Mutator {
    /// The 256-entry table of shuffled bytes that drives the space-filling
    /// enumeration.
    pub closed spec fn shuffled(self) -> Seq<u8> {
        self.shuffled_integers@
    }

    #[verifier::type_invariant]
    spec fn table_well_formed(self) -> bool {
        &&& self.shuffled_integers@.len() == 256
        &&& forall|i: int|
            0 <= i < 256 ==> self.shuffled_integers@[i] as int == binary_search_arbitrary_spec(
                0,
                255,
                i,
            )
    }

    /// The `step`-th value of the uniform permutation of the `u16` range:
    /// the table picks the high byte from the low 8 bits of `step`, then
    /// the low byte from the next 8 bits XORed with that pick.
    fn uniform_permutation(&self, step: u64) -> (r: u16)
        ensures
            r == u16_uniform_permutation(self.shuffled(), step),
    {
        proof {
            use_type_invariant(self);
            assert((step & 255) < 256) by (bit_vector);
        }
        let idx0 = (step & 255) as usize;
        let first = self.shuffled_integers[idx0] as u16;
        let idx = ((step >> 8) ^ (first as u64)) & 255;
        proof {
            let f = first as u64;
            assert(((step >> 8) ^ f) & 255 < 256) by (bit_vector);
        }
        let second = self.shuffled_integers[idx as usize] as u16;
        (first << 8u16) | second
    }
}

impl Default for U16Mutator {
    /// Precomputes the same shuffled-bytes table as `U8Mutator`.
    fn default() -> (r: Self)
        ensures
            r.shuffled().len() == 256,
            forall|i: int|
                0 <= i < 256 ==> r.shuffled()[i] as int == binary_search_arbitrary_spec(0, 255, i),
    {
        let mut table: Vec<u8> = Vec::new();
        let mut i: usize = 0;
        while i < 256
            invariant
                i <= 256,
                table@.len() == i,
                forall|j: int|
                    0 <= j < i ==> table@[j] as int == binary_search_arbitrary_spec(0, 255, j),
            decreases 256 - i,
        {
            table.push(binary_search_arbitrary(0, 255, i as u64));
            i += 1;
        }
        U16Mutator { shuffled_integers: table, rng: rng_new() }
    }
}

impl Mutator<u16> for U16Mutator {
    type Cache = ();

    type MutationStep = u64;

    type ArbitraryStep = u64;

    type UnmutateToken = u16;

    type RecursingPartIndex = ();

    open spec fn valid(&self, v: u16, c: ()) -> bool {
        true
    }

    open spec fn spec_min_complexity(&self) -> u64 {
        8
    }

    open spec fn spec_max_complexity(&self) -> u64 {
        8
    }

    open spec fn spec_complexity(&self, v: u16, c: ()) -> u64 {
        8
    }

    open spec fn spec_unmutate(&self, v: u16, c: (), t: u16) -> (u16, ()) {
        (t, ())
    }

    fn default_arbitrary_step(&self) -> u64 {
        0
    }

    fn validate_value(&self, value: &u16) -> (r: Option<()>)
        ensures
            r is Some,
    {
        Some(())
    }

    fn default_mutation_step(&self, value: &u16, cache: &()) -> u64 {
        0
    }

    fn min_complexity(&self) -> u64 {
        8
    }

    fn max_complexity(&self) -> u64 {
        8
    }

    fn complexity(&self, value: &u16, cache: &()) -> u64 {
        8
    }

    /// Enumerates every `u16` exactly once, in the shuffled order, then
    /// returns `None`.
    fn ordered_arbitrary(&self, step: &mut u64, max_cplx: u64) -> (r: Option<(u16, u64)>)
        ensures
            *old(step) > u16::MAX ==> r is None && *final(step) == *old(step),
            *old(step) <= u16::MAX ==> (r matches Some((v, c)) && v == u16_uniform_permutation(
                self.shuffled(),
                *old(step),
            ) && c == 8 && *final(step) == *old(step) + 1),
    {
        if *step > u16::MAX as u64 {
            None
        } else {
            let value = self.uniform_permutation(*step);
            *step += 1;
            Some((value, 8))
        }
    }

    fn random_arbitrary(&self, max_cplx: u64) -> (r: (u16, u64))
        ensures
            r.1 == 8,
    {
        (self.uniform_permutation(rng_u64(&self.rng)), 8)
    }

    /// The first 8 steps nudge the value by +1, -1, +2, -2, +3, -3, +4, -4;
    /// later steps jump through the uniform permutation of the range. The
    /// token is the previous value.
    fn ordered_mutate(&self, value: &mut u16, cache: &mut (), step: &mut u64, max_cplx: u64) -> (r:
        Option<(u16, u64)>)
        ensures
            *old(step) > 10 + u16::MAX ==> r is None,
            *old(step) <= 10 + u16::MAX ==> (r matches Some((t, c)) && t == *old(value) && c == 8
                && *final(value) as int == u16_mutated(
                self.shuffled(),
                *old(value),
                *old(step),
            ) && *final(step) == *old(step) + 1),
    {
        if *step > 10 + u16::MAX as u64 {
            return None;
        }
        let token = *value;
        if *step < 8 {
            let nudge = (*step + 2) as u16;
            if nudge % 2 == 0 {
                *value = value.wrapping_add(nudge / 2);
            } else {
                *value = value.wrapping_sub(nudge / 2);
            }
        } else {
            *value = self.uniform_permutation(*step - 7);
        }
        *step += 1;
        Some((token, 8))
    }

    fn random_mutate(&self, value: &mut u16, cache: &mut (), max_cplx: u64) -> (r: (u16, u64))
        ensures
            r == (*old(value), 8u64),
    {
        let token = *value;
        *value = rng_u16(&self.rng);
        (token, 8)
    }

    fn unmutate(&self, value: &mut u16, cache: &mut (), t: u16)
        ensures
            *final(value) == t,
    {
        *value = t;
    }

    fn default_recursing_part_index(&self, value: &u16, cache: &()) -> () {
        ()
    }

    fn recursing_part<'a, V, N>(&self, parent: &N, value: &'a u16, index: &mut ()) -> (r: Option<
        &'a V,
    >) where V: Clone + 'static, N: 'static
        ensures
            r is None,
    {
        None
    }
}

/// Fills the bytes of a `u32` from position `i` on, with the same
/// pick-and-XOR scheme as for `u64`.
pub open spec fn u32_permutation_from(
    table: Seq<u8>,
    step: u64,
    i: u64,
    prev: u32,
    acc: u32,
) -> u32
    decreases 4 - i,
{
    if i >= 4 {
        acc
    } else {
        let idx = ((step >> (i * 8)) ^ (prev as u64)) & 255;
        let pick = table[idx as int] as u32;
        u32_permutation_from(
            table,
            step,
            (i + 1) as u64,
            pick,
            acc | (pick << ((3 - i) * 8) as u32),
        )
    }
}

/// The `step`-th value of the uniform permutation of the whole `u32`
/// range.
pub open spec fn u32_uniform_permutation(table: Seq<u8>, step: u64) -> u32 {
    let first = table[(step & 255) as int] as u32;
    u32_permutation_from(table, step, 1, first, first << 24)
}

/// The value that the `step`-th deterministic mutation turns a `u32` into,
/// with the same nudge-then-jump plan as for bytes.
pub open spec fn u32_mutated(table: Seq<u8>, v: u32, step: u64) -> int {
    if step < 8 {
        let nudge = step + 2;
        if nudge % 2 == 0 {
            (v + nudge / 2) % 0x1_0000_0000
        } else {
            (v - nudge / 2) % 0x1_0000_0000
        }
    } else {
        u32_uniform_permutation(table, (step - 7) as u64) as int
    }
}

/// A mutator for `u32` values. As for the other integer mutators, every
/// value has complexity 8.
pub struct U32Mutator {
    shuffled_integers: Vec<u8>,
    rng: fastrand::Rng,
}

impl U32Mutator {
    /// The 256-entry table of shuffled bytes that drives the space-filling
    /// enumeration.
    pub closed spec fn shuffled(self) -> Seq<u8> {
        self.shuffled_integers@
    }

    #[verifier::type_invariant]
    spec fn table_well_formed(self) -> bool {
        &&& self.shuffled_integers@.len() == 256
        &&& forall|i: int|
            0 <= i < 256 ==> self.shuffled_integers@[i] as int == binary_search_arbitrary_spec(
                0,
                255,
                i,
            )
    }

    /// Assembles the `step`-th value of the uniform permutation of the
    /// `u32` range, 8 bits at a time.
    fn uniform_permutation(&self, step: u64) -> (r: u32)
        ensures
            r == u32_uniform_permutation(self.shuffled(), step),
    {
        proof {
            use_type_invariant(self);
            assert((step & 255) < 256) by (bit_vector);
        }
        let idx0 = (step & 255) as usize;
        let mut prev: u32 = self.shuffled_integers[idx0] as u32;
        let mut result: u32 = prev << 24u32;
        let mut i: u64 = 1;
        while i < 4
            invariant
                1 <= i <= 4,
                self.shuffled_integers@.len() == 256,
                u32_uniform_permutation(self.shuffled(), step) == u32_permutation_from(
                    self.shuffled(),
                    step,
                    i,
                    prev,
                    result,
                ),
            decreases 4 - i,
        {
            let shifted: u64 = step >> (i * 8);
            let idx = (shifted ^ (prev as u64)) & 255;
            proof {
                let p = prev as u64;
                assert((shifted ^ p) & 255 < 256) by (bit_vector);
            }
            prev = self.shuffled_integers[idx as usize] as u32;
            result = result | (prev << ((3 - i) * 8) as u32);
            i += 1;
        }
        result
    }
}

impl Default for U32Mutator {
    /// Precomputes the same shuffled-bytes table as `U8Mutator`.
    fn default() -> (r: Self)
        ensures
            r.shuffled().len() == 256,
            forall|i: int|
                0 <= i < 256 ==> r.shuffled()[i] as int == binary_search_arbitrary_spec(0, 255, i),
    {
        let mut table: Vec<u8> = Vec::new();
        let mut i: usize = 0;
        while i < 256
            invariant
                i <= 256,
                table@.len() == i,
                forall|j: int|
                    0 <= j < i ==> table@[j] as int == binary_search_arbitrary_spec(0, 255, j),
            decreases 256 - i,
        {
            table.push(binary_search_arbitrary(0, 255, i as u64));
            i += 1;
        }
        U32Mutator { shuffled_integers: table, rng: rng_new() }
    }
}

impl Mutator<u32> for U32Mutator {
    type Cache = ();

    type MutationStep = u64;

    type ArbitraryStep = u64;

    type UnmutateToken = u32;

    type RecursingPartIndex = ();

    open spec fn valid(&self, v: u32, c: ()) -> bool {
        true
    }

    open spec fn spec_min_complexity(&self) -> u64 {
        8
    }

    open spec fn spec_max_complexity(&self) -> u64 {
        8
    }

    open spec fn spec_complexity(&self, v: u32, c: ()) -> u64 {
        8
    }

    open spec fn spec_unmutate(&self, v: u32, c: (), t: u32) -> (u32, ()) {
        (t, ())
    }

    fn default_arbitrary_step(&self) -> u64 {
        0
    }

    fn validate_value(&self, value: &u32) -> (r: Option<()>)
        ensures
            r is Some,
    {
        Some(())
    }

    fn default_mutation_step(&self, value: &u32, cache: &()) -> u64 {
        0
    }

    fn min_complexity(&self) -> u64 {
        8
    }

    fn max_complexity(&self) -> u64 {
        8
    }

    fn complexity(&self, value: &u32, cache: &()) -> u64 {
        8
    }

    /// Enumerates every `u32` exactly once, in the shuffled order, then
    /// returns `None`.
    fn ordered_arbitrary(&self, step: &mut u64, max_cplx: u64) -> (r: Option<(u32, u64)>)
        ensures
            *old(step) > u32::MAX ==> r is None && *final(step) == *old(step),
            *old(step) <= u32::MAX ==> (r matches Some((v, c)) && v == u32_uniform_permutation(
                self.shuffled(),
                *old(step),
            ) && c == 8 && *final(step) == *old(step) + 1),
    {
        if *step > u32::MAX as u64 {
            None
        } else {
            let value = self.uniform_permutation(*step);
            *step += 1;
            Some((value, 8))
        }
    }

    fn random_arbitrary(&self, max_cplx: u64) -> (r: (u32, u64))
        ensures
            r.1 == 8,
    {
        (self.uniform_permutation(rng_u64(&self.rng)), 8)
    }

    /// The first 8 steps nudge the value by +1, -1, +2, -2, +3, -3, +4, -4;
    /// later steps jump through the uniform permutation of the range. The
    /// token is the previous value.
    fn ordered_mutate(&self, value: &mut u32, cache: &mut (), step: &mut u64, max_cplx: u64) -> (r:
        Option<(u32, u64)>)
        ensures
            *old(step) > 10 + u32::MAX ==> r is None,
            *old(step) <= 10 + u32::MAX ==> (r matches Some((t, c)) && t == *old(value) && c == 8
                && *final(value) as int == u32_mutated(
                self.shuffled(),
                *old(value),
                *old(step),
            ) && *final(step) == *old(step) + 1),
    {
        if *step > 10 + u32::MAX as u64 {
            return None;
        }
        let token = *value;
        if *step < 8 {
            let nudge = (*step + 2) as u32;
            if nudge % 2 == 0 {
                *value = value.wrapping_add(nudge / 2);
            } else {
                *value = value.wrapping_sub(nudge / 2);
            }
        } else {
            *value = self.uniform_permutation(*step - 7);
        }
        *step += 1;
        Some((token, 8))
    }

    fn random_mutate(&self, value: &mut u32, cache: &mut (), max_cplx: u64) -> (r: (u32, u64))
        ensures
            r == (*old(value), 8u64),
    {
        let token = *value;
        *value = rng_u32(&self.rng);
        (token, 8)
    }

    fn unmutate(&self, value: &mut u32, cache: &mut (), t: u32)
        ensures
            *final(value) == t,
    {
        *value = t;
    }

    fn default_recursing_part_index(&self, value: &u32, cache: &()) -> () {
        ()
    }

    fn recursing_part<'a, V, N>(&self, parent: &N, value: &'a u32, index: &mut ()) -> (r: Option<
        &'a V,
    >) where V: Clone + 'static, N: 'static
        ensures
            r is None,
    {
        None
    }
}

/// Fills the bytes of a `u64` from position `i` on, given the previous
/// pick `prev` and the bits assembled so far in `acc`: the next table index
/// is the next 8 bits of `step` XORed with the previous pick, and each pick
/// lands 8 bits lower than the one before.
pub open spec fn u64_permutation_from(
    table: Seq<u8>,
    step: u64,
    i: u64,
    prev: u64,
    acc: u64,
) -> u64
    decreases 8 - i,
{
    if i >= 8 {
        acc
    } else {
        let idx = ((step >> (i * 8)) ^ prev) & 255;
        let pick = table[idx as int] as u64;
        u64_permutation_from(table, step, (i + 1) as u64, pick, acc | (pick << ((7 - i) * 8)))
    }
}

/// The `step`-th value of the uniform permutation of the whole `u64` range:
/// the shuffled-bytes table indexed with the low 8 bits of `step` gives the
/// high byte, and each further byte comes from the next 8 bits of `step`
/// XORed with the previous pick.
pub open spec fn u64_uniform_permutation(table: Seq<u8>, step: u64) -> u64 {
    let first = table[(step & 255) as int] as u64;
    u64_permutation_from(table, step, 1, first, first << 56)
}

/// The value that the `step`-th deterministic mutation turns a `u64` into,
/// with the same nudge-then-jump plan as for bytes.
pub open spec fn u64_mutated(table: Seq<u8>, v: u64, step: u64) -> u64 {
    if step < 8 {
        let nudge = step + 2;
        if nudge % 2 == 0 {
            ((v + nudge / 2) % 0x1_0000_0000_0000_0000) as u64
        } else {
            ((v - nudge / 2) % 0x1_0000_0000_0000_0000) as u64
        }
    } else {
        u64_uniform_permutation(table, (step - 7) as u64)
    }
}

/// A mutator for `u64` values. As for the other integer mutators, every
/// value has complexity 8.
pub struct U64Mutator {
    shuffled_integers: Vec<u8>,
    rng: fastrand::Rng,
}

impl U64Mutator {
    /// The 256-entry table of shuffled bytes that drives the space-filling
    /// enumeration.
    pub closed spec fn shuffled(self) -> Seq<u8> {
        self.shuffled_integers@
    }

    #[verifier::type_invariant]
    spec fn table_well_formed(self) -> bool {
        &&& self.shuffled_integers@.len() == 256
        &&& forall|i: int|
            0 <= i < 256 ==> self.shuffled_integers@[i] as int == binary_search_arbitrary_spec(
                0,
                255,
                i,
            )
    }

    /// Assembles the `step`-th value of the uniform permutation of the
    /// `u64` range, 8 bits at a time.
    fn uniform_permutation(&self, step: u64) -> (r: u64)
        ensures
            r == u64_uniform_permutation(self.shuffled(), step),
    {
        proof {
            use_type_invariant(self);
            assert((step & 255) < 256) by (bit_vector);
        }
        let idx0 = (step & 255) as usize;
        let mut prev: u64 = self.shuffled_integers[idx0] as u64;
        let mut result: u64 = prev << 56u64;
        let mut i: u64 = 1;
        while i < 8
            invariant
                1 <= i <= 8,
                self.shuffled_integers@.len() == 256,
                u64_uniform_permutation(self.shuffled(), step) == u64_permutation_from(
                    self.shuffled(),
                    step,
                    i,
                    prev,
                    result,
                ),
            decreases 8 - i,
        {
            let shifted: u64 = step >> (i * 8);
            let idx = (shifted ^ prev) & 255;
            proof {
                assert((shifted ^ prev) & 255 < 256) by (bit_vector);
            }
            prev = self.shuffled_integers[idx as usize] as u64;
            result = result | (prev << ((7 - i) * 8));
            i += 1;
        }
        result
    }
}

impl Default for U64Mutator {
    /// Precomputes the same shuffled-bytes table as `U8Mutator`.
    fn default() -> (r: Self)
        ensures
            r.shuffled().len() == 256,
            forall|i: int|
                0 <= i < 256 ==> r.shuffled()[i] as int == binary_search_arbitrary_spec(0, 255, i),
    {
        let mut table: Vec<u8> = Vec::new();
        let mut i: usize = 0;
        while i < 256
            invariant
                i <= 256,
                table@.len() == i,
                forall|j: int|
                    0 <= j < i ==> table@[j] as int == binary_search_arbitrary_spec(0, 255, j),
            decreases 256 - i,
        {
            table.push(binary_search_arbitrary(0, 255, i as u64));
            i += 1;
        }
        U64Mutator { shuffled_integers: table, rng: rng_new() }
    }
}

impl Mutator<u64> for U64Mutator {
    type Cache = ();

    type MutationStep = u64;

    type ArbitraryStep = u64;

    type UnmutateToken = u64;

    type RecursingPartIndex = ();

    open spec fn valid(&self, v: u64, c: ()) -> bool {
        true
    }

    open spec fn spec_min_complexity(&self) -> u64 {
        8
    }

    open spec fn spec_max_complexity(&self) -> u64 {
        8
    }

    open spec fn spec_complexity(&self, v: u64, c: ()) -> u64 {
        8
    }

    open spec fn spec_unmutate(&self, v: u64, c: (), t: u64) -> (u64, ()) {
        (t, ())
    }

    fn default_arbitrary_step(&self) -> u64 {
        0
    }

    fn validate_value(&self, value: &u64) -> (r: Option<()>)
        ensures
            r is Some,
    {
        Some(())
    }

    fn default_mutation_step(&self, value: &u64, cache: &()) -> u64 {
        0
    }

    fn min_complexity(&self) -> u64 {
        8
    }

    fn max_complexity(&self) -> u64 {
        8
    }

    fn complexity(&self, value: &u64, cache: &()) -> u64 {
        8
    }

    /// The `u64` range is never exhausted within the reachable step values:
    /// every call yields the next value of the uniform permutation.
    fn ordered_arbitrary(&self, step: &mut u64, max_cplx: u64) -> (r: Option<(u64, u64)>)
        ensures
            r matches Some((v, c)) && v == u64_uniform_permutation(self.shuffled(), *old(step))
                && c == 8,
            *final(step) == (*old(step) + 1) % 0x1_0000_0000_0000_0000,
    {
        let value = self.uniform_permutation(*step);
        *step = step.wrapping_add(1);
        Some((value, 8))
    }

    fn random_arbitrary(&self, max_cplx: u64) -> (r: (u64, u64))
        ensures
            r.1 == 8,
    {
        (self.uniform_permutation(rng_u64(&self.rng)), 8)
    }

    /// The first 8 steps nudge the value by +1, -1, +2, -2, +3, -3, +4, -4;
    /// later steps jump through the uniform permutation of the range. The
    /// token is the previous value.
    fn ordered_mutate(&self, value: &mut u64, cache: &mut (), step: &mut u64, max_cplx: u64) -> (r:
        Option<(u64, u64)>)
        ensures
            (r matches Some((t, c)) && t == *old(value) && c == 8),
            *final(value) == u64_mutated(self.shuffled(), *old(value), *old(step)),
            *final(step) == (*old(step) + 1) % 0x1_0000_0000_0000_0000,
    {
        let token = *value;
        if *step < 8 {
            let nudge = *step + 2;
            if nudge % 2 == 0 {
                *value = value.wrapping_add(nudge / 2);
            } else {
                *value = value.wrapping_sub(nudge / 2);
            }
        } else {
            *value = self.uniform_permutation(*step - 7);
        }
        *step = step.wrapping_add(1);
        Some((token, 8))
    }

    fn random_mutate(&self, value: &mut u64, cache: &mut (), max_cplx: u64) -> (r: (u64, u64))
        ensures
            r == (*old(value), 8u64),
    {
        let token = *value;
        *value = rng_u64(&self.rng);
        (token, 8)
    }

    fn unmutate(&self, value: &mut u64, cache: &mut (), t: u64)
        ensures
            *final(value) == t,
    {
        *value = t;
    }

    fn default_recursing_part_index(&self, value: &u64, cache: &()) -> () {
        ()
    }

    fn recursing_part<'a, V, N>(&self, parent: &N, value: &'a u64, index: &mut ()) -> (r: Option<
        &'a V,
    >) where V: Clone + 'static, N: 'static
        ensures
            r is None,
    {
        None
    }
}

/// Wraps an unbounded value into the `i8` range, the way two's-complement
/// arithmetic does.
pub open spec fn wrap_i8(x: int) -> int {
    ((x + 128) % 256) - 128
}

/// The value that the `step`-th deterministic mutation turns an `i8` into:
/// the same nudges and jumps as for `u8`, reinterpreted as a signed byte.
pub open spec fn i8_mutated(v: i8, step: u64) -> int {
    if step < 8 {
        let nudge = step + 2;
        if nudge % 2 == 0 {
            wrap_i8(v + nudge / 2)
        } else {
            wrap_i8(v - nudge / 2)
        }
    } else {
        wrap_i8(binary_search_arbitrary_spec(0, 255, ((step - 7) % 256) as int))
    }
}

/// A mutator for `i8` values: the unsigned byte enumeration reinterpreted
/// in two's complement. Every value has complexity 8.
pub struct I8Mutator {
    shuffled_integers: Vec<u8>,
    rng: fastrand::Rng,
}

impl I8Mutator {
    /// The 256-entry table of shuffled bytes that drives the space-filling
    /// enumeration.
    pub closed spec fn shuffled(self) -> Seq<u8> {
        self.shuffled_integers@
    }

    #[verifier::type_invariant]
    spec fn table_well_formed(self) -> bool {
        &&& self.shuffled_integers@.len() == 256
        &&& forall|i: int|
            0 <= i < 256 ==> self.shuffled_integers@[i] as int == binary_search_arbitrary_spec(
                0,
                255,
                i,
            )
    }

    /// The `step`-th value of the uniform permutation of the byte range,
    /// reinterpreted as a signed byte.
    fn uniform_permutation(&self, step: u64) -> (r: i8)
        ensures
            r as int == wrap_i8(binary_search_arbitrary_spec(0, 255, (step % 256) as int)),
    {
        proof {
            use_type_invariant(self);
            assert((step & 255) == step % 256) by (bit_vector);
        }
        let idx = (step & 255) as usize;
        let byte = self.shuffled_integers[idx];
        // Two's-complement reinterpretation, spelled out so that every
        // cast stays in range.
        if byte <= 127 {
            byte as i8
        } else {
            let distance = 255 - byte;  // how far below 256 the byte is, minus one
            -(distance as i8) - 1
        }
    }
}

impl Default for I8Mutator {
    /// Precomputes the same shuffled-bytes table as `U8Mutator`.
    fn default() -> (r: Self)
        ensures
            r.shuffled().len() == 256,
            forall|i: int|
                0 <= i < 256 ==> r.shuffled()[i] as int == binary_search_arbitrary_spec(0, 255, i),
    {
        let mut table: Vec<u8> = Vec::new();
        let mut i: usize = 0;
        while i < 256
            invariant
                i <= 256,
                table@.len() == i,
                forall|j: int|
                    0 <= j < i ==> table@[j] as int == binary_search_arbitrary_spec(0, 255, j),
            decreases 256 - i,
        {
            table.push(binary_search_arbitrary(0, 255, i as u64));
            i += 1;
        }
        I8Mutator { shuffled_integers: table, rng: rng_new() }
    }
}

impl Mutator<i8> for I8Mutator {
    type Cache = ();

    type MutationStep = u64;

    type ArbitraryStep = u64;

    type UnmutateToken = i8;

    type RecursingPartIndex = ();

    open spec fn valid(&self, v: i8, c: ()) -> bool {
        true
    }

    open spec fn spec_min_complexity(&self) -> u64 {
        8
    }

    open spec fn spec_max_complexity(&self) -> u64 {
        8
    }

    open spec fn spec_complexity(&self, v: i8, c: ()) -> u64 {
        8
    }

    open spec fn spec_unmutate(&self, v: i8, c: (), t: i8) -> (i8, ()) {
        (t, ())
    }

    fn default_arbitrary_step(&self) -> u64 {
        0
    }

    fn validate_value(&self, value: &i8) -> (r: Option<()>)
        ensures
            r is Some,
    {
        Some(())
    }

    fn default_mutation_step(&self, value: &i8, cache: &()) -> u64 {
        0
    }

    fn min_complexity(&self) -> u64 {
        8
    }

    fn max_complexity(&self) -> u64 {
        8
    }

    fn complexity(&self, value: &i8, cache: &()) -> u64 {
        8
    }

    /// Enumerates every `i8` exactly once, in the shuffled order, then
    /// returns `None`.
    fn ordered_arbitrary(&self, step: &mut u64, max_cplx: u64) -> (r: Option<(i8, u64)>)
        ensures
            *old(step) > 255 ==> r is None && *final(step) == *old(step),
            *old(step) <= 255 ==> (r matches Some((v, c)) && v as int == wrap_i8(
                binary_search_arbitrary_spec(0, 255, *old(step) as int),
            ) && c == 8 && *final(step) == *old(step) + 1),
    {
        if *step > 255 {
            None
        } else {
            let value = self.uniform_permutation(*step);
            *step += 1;
            Some((value, 8))
        }
    }

    fn random_arbitrary(&self, max_cplx: u64) -> (r: (i8, u64))
        ensures
            r.1 == 8,
    {
        (self.uniform_permutation(rng_u64(&self.rng)), 8)
    }

    /// The first 8 steps nudge the value by +1, -1, +2, -2, +3, -3, +4, -4
    /// with wrap-around; later steps jump through the reinterpreted
    /// permutation. The token is the previous value.
    fn ordered_mutate(&self, value: &mut i8, cache: &mut (), step: &mut u64, max_cplx: u64) -> (r:
        Option<(i8, u64)>)
        ensures
            (r matches Some((t, c)) && t == *old(value) && c == 8),
            *old(step) <= 265 ==> *final(value) as int == i8_mutated(*old(value), *old(step)),
            *final(step) == (*old(step) + 1) % 0x1_0000_0000_0000_0000,
    {
        let token = *value;
        if *step < 8 {
            let nudge = (*step + 2) as i8;
            if nudge % 2 == 0 {
                *value = value.wrapping_add(nudge / 2);
            } else {
                *value = value.wrapping_sub(nudge / 2);
            }
        } else {
            *value = self.uniform_permutation(step.wrapping_sub(7));
            proof {
                if *old(step) <= 265 {
                    assert((*old(step) - 7) as u64 % 256 == ((*old(step) - 7) % 256) as u64);
                }
            }
        }
        *step = step.wrapping_add(1);
        Some((token, 8))
    }

    fn random_mutate(&self, value: &mut i8, cache: &mut (), max_cplx: u64) -> (r: (i8, u64))
        ensures
            r == (*old(value), 8u64),
    {
        let token = *value;
        *value = rng_i8(&self.rng);
        (token, 8)
    }

    fn unmutate(&self, value: &mut i8, cache: &mut (), t: i8)
        ensures
            *final(value) == t,
    {
        *value = t;
    }

    fn default_recursing_part_index(&self, value: &i8, cache: &()) -> () {
        ()
    }

    fn recursing_part<'a, V, N>(&self, parent: &N, value: &'a i8, index: &mut ()) -> (r: Option<
        &'a V,
    >) where V: Clone + 'static, N: 'static
        ensures
            r is None,
    {
        None
    }
}


/// Wraps an unbounded value into the `i16` range, the way two's-complement
/// arithmetic does.
pub open spec fn wrap_i16(x: int) -> int {
    ((x + 0x8000) % 0x1_0000) - 0x8000
}

/// The value that the `step`-th deterministic mutation turns an `i16`
/// into: the same nudges and jumps as for `u16`, reinterpreted in two's
/// complement.
pub open spec fn i16_mutated(table: Seq<u8>, v: i16, step: u64) -> int {
    if step < 8 {
        let nudge = step + 2;
        if nudge % 2 == 0 {
            wrap_i16(v + nudge / 2)
        } else {
            wrap_i16(v - nudge / 2)
        }
    } else {
        wrap_i16(u16_uniform_permutation(table, (step - 7) as u64) as int)
    }
}

/// A mutator for `i16` values: the unsigned enumeration reinterpreted in
/// two's complement. Every value has complexity 8.
pub struct I16Mutator {
    shuffled_integers: Vec<u8>,
    rng: fastrand::Rng,
}

impl I16Mutator {
    /// The 256-entry table of shuffled bytes that drives the space-filling
    /// enumeration.
    pub closed spec fn shuffled(self) -> Seq<u8> {
        self.shuffled_integers@
    }

    #[verifier::type_invariant]
    spec fn table_well_formed(self) -> bool {
        &&& self.shuffled_integers@.len() == 256
        &&& forall|i: int|
            0 <= i < 256 ==> self.shuffled_integers@[i] as int == binary_search_arbitrary_spec(
                0,
                255,
                i,
            )
    }

    /// The `step`-th value of the uniform permutation of the `u16` range,
    /// reinterpreted as a signed value.
    fn uniform_permutation(&self, step: u64) -> (r: i16)
        ensures
            r as int == wrap_i16(u16_uniform_permutation(self.shuffled(), step) as int),
    {
        proof {
            use_type_invariant(self);
            assert((step & 255) < 256) by (bit_vector);
        }
        let idx0 = (step & 255) as usize;
        let first = self.shuffled_integers[idx0] as u16;
        let idx = ((step >> 8) ^ (first as u64)) & 255;
        proof {
            let f = first as u64;
            assert(((step >> 8) ^ f) & 255 < 256) by (bit_vector);
        }
        let second = self.shuffled_integers[idx as usize] as u16;
        let unsigned: u16 = (first << 8u16) | second;
        // Two's-complement reinterpretation, spelled out so that every
        // cast stays in range.
        if unsigned <= 32767 {
            unsigned as i16
        } else {
            let distance = 65535 - unsigned;
            -(distance as i16) - 1
        }
    }
}

impl Default for I16Mutator {
    /// Precomputes the same shuffled-bytes table as `U8Mutator`.
    fn default() -> (r: Self)
        ensures
            r.shuffled().len() == 256,
            forall|i: int|
                0 <= i < 256 ==> r.shuffled()[i] as int == binary_search_arbitrary_spec(0, 255, i),
    {
        let mut table: Vec<u8> = Vec::new();
        let mut i: usize = 0;
        while i < 256
            invariant
                i <= 256,
                table@.len() == i,
                forall|j: int|
                    0 <= j < i ==> table@[j] as int == binary_search_arbitrary_spec(0, 255, j),
            decreases 256 - i,
        {
            table.push(binary_search_arbitrary(0, 255, i as u64));
            i += 1;
        }
        I16Mutator { shuffled_integers: table, rng: rng_new() }
    }
}

impl Mutator<i16> for I16Mutator {
    type Cache = ();

    type MutationStep = u64;

    type ArbitraryStep = u64;

    type UnmutateToken = i16;

    type RecursingPartIndex = ();

    open spec fn valid(&self, v: i16, c: ()) -> bool {
        true
    }

    open spec fn spec_min_complexity(&self) -> u64 {
        8
    }

    open spec fn spec_max_complexity(&self) -> u64 {
        8
    }

    open spec fn spec_complexity(&self, v: i16, c: ()) -> u64 {
        8
    }

    open spec fn spec_unmutate(&self, v: i16, c: (), t: i16) -> (i16, ()) {
        (t, ())
    }

    fn default_arbitrary_step(&self) -> u64 {
        0
    }

    fn validate_value(&self, value: &i16) -> (r: Option<()>)
        ensures
            r is Some,
    {
        Some(())
    }

    fn default_mutation_step(&self, value: &i16, cache: &()) -> u64 {
        0
    }

    fn min_complexity(&self) -> u64 {
        8
    }

    fn max_complexity(&self) -> u64 {
        8
    }

    fn complexity(&self, value: &i16, cache: &()) -> u64 {
        8
    }

    /// Enumerates every `i16` exactly once, in the shuffled order, then
    /// returns `None`.
    fn ordered_arbitrary(&self, step: &mut u64, max_cplx: u64) -> (r: Option<(i16, u64)>)
        ensures
            *old(step) > u16::MAX ==> r is None && *final(step) == *old(step),
            *old(step) <= u16::MAX ==> (r matches Some((v, c)) && v as int == wrap_i16(
                u16_uniform_permutation(self.shuffled(), *old(step)) as int,
            ) && c == 8 && *final(step) == *old(step) + 1),
    {{
        if *step > u16::MAX as u64 {{
            None
        }} else {{
            let value = self.uniform_permutation(*step);
            *step += 1;
            Some((value, 8))
        }}
    }}

    fn random_arbitrary(&self, max_cplx: u64) -> (r: (i16, u64))
        ensures
            r.1 == 8,
    {
        (self.uniform_permutation(rng_u64(&self.rng)), 8)
    }

    /// The first 8 steps nudge the value by +1, -1, +2, -2, +3, -3, +4, -4
    /// with wrap-around; later steps jump through the reinterpreted
    /// permutation. The token is the previous value.
    fn ordered_mutate(&self, value: &mut i16, cache: &mut (), step: &mut u64, max_cplx: u64) -> (r:
        Option<(i16, u64)>)
        ensures
            (r matches Some((t, c)) && t == *old(value) && c == 8),
            *final(value) as int == i16_mutated(self.shuffled(), *old(value), *old(step)),
            *final(step) == (*old(step) + 1) % 0x1_0000_0000_0000_0000,
    {
        let token = *value;
        if *step < 8 {
            let nudge = (*step + 2) as i16;
            if nudge % 2 == 0 {
                *value = value.wrapping_add(nudge / 2);
            } else {
                *value = value.wrapping_sub(nudge / 2);
            }
        } else {
            *value = self.uniform_permutation(*step - 7);
        }
        *step = step.wrapping_add(1);
        Some((token, 8))
    }

    fn random_mutate(&self, value: &mut i16, cache: &mut (), max_cplx: u64) -> (r: (i16, u64))
        ensures
            r == (*old(value), 8u64),
    {
        let token = *value;
        *value = rng_i16(&self.rng);
        (token, 8)
    }

    fn unmutate(&self, value: &mut i16, cache: &mut (), t: i16)
        ensures
            *final(value) == t,
    {
        *value = t;
    }

    fn default_recursing_part_index(&self, value: &i16, cache: &()) -> () {
        ()
    }

    fn recursing_part<'a, V, N>(&self, parent: &N, value: &'a i16, index: &mut ()) -> (r: Option<
        &'a V,
    >) where V: Clone + 'static, N: 'static
        ensures
            r is None,
    {
        None
    }
}

/// Wraps an unbounded value into the `i32` range, the way two's-complement
/// arithmetic does.
pub open spec fn wrap_i32(x: int) -> int {
    ((x + 0x8000_0000) % 0x1_0000_0000) - 0x8000_0000
}

/// The value that the `step`-th deterministic mutation turns an `i32`
/// into: the same nudges and jumps as for `u32`, reinterpreted in two's
/// complement.
pub open spec fn i32_mutated(table: Seq<u8>, v: i32, step: u64) -> int {
    if step < 8 {
        let nudge = step + 2;
        if nudge % 2 == 0 {
            wrap_i32(v + nudge / 2)
        } else {
            wrap_i32(v - nudge / 2)
        }
    } else {
        wrap_i32(u32_uniform_permutation(table, (step - 7) as u64) as int)
    }
}

/// A mutator for `i32` values: the unsigned enumeration reinterpreted in
/// two's complement. Every value has complexity 8.
pub struct I32Mutator {
    shuffled_integers: Vec<u8>,
    rng: fastrand::Rng,
}

impl I32Mutator {
    /// The 256-entry table of shuffled bytes that drives the space-filling
    /// enumeration.
    pub closed spec fn shuffled(self) -> Seq<u8> {
        self.shuffled_integers@
    }

    #[verifier::type_invariant]
    spec fn table_well_formed(self) -> bool {
        &&& self.shuffled_integers@.len() == 256
        &&& forall|i: int|
            0 <= i < 256 ==> self.shuffled_integers@[i] as int == binary_search_arbitrary_spec(
                0,
                255,
                i,
            )
    }

    /// The `step`-th value of the uniform permutation of the `u32` range,
    /// reinterpreted as a signed value.
    fn uniform_permutation(&self, step: u64) -> (r: i32)
        ensures
            r as int == wrap_i32(u32_uniform_permutation(self.shuffled(), step) as int),
    {
        proof {
            use_type_invariant(self);
            assert((step & 255) < 256) by (bit_vector);
        }
        let idx0 = (step & 255) as usize;
        let mut prev: u32 = self.shuffled_integers[idx0] as u32;
        let mut result: u32 = prev << 24u32;
        let mut i: u64 = 1;
        while i < 4
            invariant
                1 <= i <= 4,
                self.shuffled_integers@.len() == 256,
                u32_uniform_permutation(self.shuffled(), step) == u32_permutation_from(
                    self.shuffled(),
                    step,
                    i,
                    prev,
                    result,
                ),
            decreases 4 - i,
        {
            let shifted: u64 = step >> (i * 8);
            let idx = (shifted ^ (prev as u64)) & 255;
            proof {
                let p = prev as u64;
                assert((shifted ^ p) & 255 < 256) by (bit_vector);
            }
            prev = self.shuffled_integers[idx as usize] as u32;
            result = result | (prev << ((3 - i) * 8) as u32);
            i += 1;
        }
        let unsigned: u32 = result;
        // Two's-complement reinterpretation, spelled out so that every
        // cast stays in range.
        if unsigned <= 2147483647 {
            unsigned as i32
        } else {
            let distance = 4294967295 - unsigned;
            -(distance as i32) - 1
        }
    }
}

impl Default for I32Mutator {
    /// Precomputes the same shuffled-bytes table as `U8Mutator`.
    fn default() -> (r: Self)
        ensures
            r.shuffled().len() == 256,
            forall|i: int|
                0 <= i < 256 ==> r.shuffled()[i] as int == binary_search_arbitrary_spec(0, 255, i),
    {
        let mut table: Vec<u8> = Vec::new();
        let mut i: usize = 0;
        while i < 256
            invariant
                i <= 256,
                table@.len() == i,
                forall|j: int|
                    0 <= j < i ==> table@[j] as int == binary_search_arbitrary_spec(0, 255, j),
            decreases 256 - i,
        {
            table.push(binary_search_arbitrary(0, 255, i as u64));
            i += 1;
        }
        I32Mutator { shuffled_integers: table, rng: rng_new() }
    }
}

impl Mutator<i32> for I32Mutator {
    type Cache = ();

    type MutationStep = u64;

    type ArbitraryStep = u64;

    type UnmutateToken = i32;

    type RecursingPartIndex = ();

    open spec fn valid(&self, v: i32, c: ()) -> bool {
        true
    }

    open spec fn spec_min_complexity(&self) -> u64 {
        8
    }

    open spec fn spec_max_complexity(&self) -> u64 {
        8
    }

    open spec fn spec_complexity(&self, v: i32, c: ()) -> u64 {
        8
    }

    open spec fn spec_unmutate(&self, v: i32, c: (), t: i32) -> (i32, ()) {
        (t, ())
    }

    fn default_arbitrary_step(&self) -> u64 {
        0
    }

    fn validate_value(&self, value: &i32) -> (r: Option<()>)
        ensures
            r is Some,
    {
        Some(())
    }

    fn default_mutation_step(&self, value: &i32, cache: &()) -> u64 {
        0
    }

    fn min_complexity(&self) -> u64 {
        8
    }

    fn max_complexity(&self) -> u64 {
        8
    }

    fn complexity(&self, value: &i32, cache: &()) -> u64 {
        8
    }

    /// Enumerates every `i32` exactly once, in the shuffled order, then
    /// returns `None`.
    fn ordered_arbitrary(&self, step: &mut u64, max_cplx: u64) -> (r: Option<(i32, u64)>)
        ensures
            *old(step) > u32::MAX ==> r is None && *final(step) == *old(step),
            *old(step) <= u32::MAX ==> (r matches Some((v, c)) && v as int == wrap_i32(
                u32_uniform_permutation(self.shuffled(), *old(step)) as int,
            ) && c == 8 && *final(step) == *old(step) + 1),
    {{
        if *step > u32::MAX as u64 {{
            None
        }} else {{
            let value = self.uniform_permutation(*step);
            *step += 1;
            Some((value, 8))
        }}
    }}

    fn random_arbitrary(&self, max_cplx: u64) -> (r: (i32, u64))
        ensures
            r.1 == 8,
    {
        (self.uniform_permutation(rng_u64(&self.rng)), 8)
    }

    /// The first 8 steps nudge the value by +1, -1, +2, -2, +3, -3, +4, -4
    /// with wrap-around; later steps jump through the reinterpreted
    /// permutation. The token is the previous value.
    fn ordered_mutate(&self, value: &mut i32, cache: &mut (), step: &mut u64, max_cplx: u64) -> (r:
        Option<(i32, u64)>)
        ensures
            (r matches Some((t, c)) && t == *old(value) && c == 8),
            *final(value) as int == i32_mutated(self.shuffled(), *old(value), *old(step)),
            *final(step) == (*old(step) + 1) % 0x1_0000_0000_0000_0000,
    {
        let token = *value;
        if *step < 8 {
            let nudge = (*step + 2) as i32;
            if nudge % 2 == 0 {
                *value = value.wrapping_add(nudge / 2);
            } else {
                *value = value.wrapping_sub(nudge / 2);
            }
        } else {
            *value = self.uniform_permutation(*step - 7);
        }
        *step = step.wrapping_add(1);
        Some((token, 8))
    }

    fn random_mutate(&self, value: &mut i32, cache: &mut (), max_cplx: u64) -> (r: (i32, u64))
        ensures
            r == (*old(value), 8u64),
    {
        let token = *value;
        *value = rng_i32(&self.rng);
        (token, 8)
    }

    fn unmutate(&self, value: &mut i32, cache: &mut (), t: i32)
        ensures
            *final(value) == t,
    {
        *value = t;
    }

    fn default_recursing_part_index(&self, value: &i32, cache: &()) -> () {
        ()
    }

    fn recursing_part<'a, V, N>(&self, parent: &N, value: &'a i32, index: &mut ()) -> (r: Option<
        &'a V,
    >) where V: Clone + 'static, N: 'static
        ensures
            r is None,
    {
        None
    }
}

/// Wraps an unbounded value into the `i64` range, the way two's-complement
/// arithmetic does.
pub open spec fn wrap_i64(x: int) -> int {
    ((x + 0x8000_0000_0000_0000) % 0x1_0000_0000_0000_0000) - 0x8000_0000_0000_0000
}

/// The value that the `step`-th deterministic mutation turns an `i64`
/// into: the same nudges and jumps as for `u64`, reinterpreted in two's
/// complement.
pub open spec fn i64_mutated(table: Seq<u8>, v: i64, step: u64) -> int {
    if step < 8 {
        let nudge = step + 2;
        if nudge % 2 == 0 {
            wrap_i64(v + nudge / 2)
        } else {
            wrap_i64(v - nudge / 2)
        }
    } else {
        wrap_i64(u64_uniform_permutation(table, (step - 7) as u64) as int)
    }
}

/// A mutator for `i64` values: the unsigned enumeration reinterpreted in
/// two's complement. Every value has complexity 8.
pub struct I64Mutator {
    shuffled_integers: Vec<u8>,
    rng: fastrand::Rng,
}

impl I64Mutator {
    /// The 256-entry table of shuffled bytes that drives the space-filling
    /// enumeration.
    pub closed spec fn shuffled(self) -> Seq<u8> {
        self.shuffled_integers@
    }

    #[verifier::type_invariant]
    spec fn table_well_formed(self) -> bool {
        &&& self.shuffled_integers@.len() == 256
        &&& forall|i: int|
            0 <= i < 256 ==> self.shuffled_integers@[i] as int == binary_search_arbitrary_spec(
                0,
                255,
                i,
            )
    }

    /// The `step`-th value of the uniform permutation of the `u64` range,
    /// reinterpreted as a signed value.
    fn uniform_permutation(&self, step: u64) -> (r: i64)
        ensures
            r as int == wrap_i64(u64_uniform_permutation(self.shuffled(), step) as int),
    {
        proof {
            use_type_invariant(self);
            assert((step & 255) < 256) by (bit_vector);
        }
        let idx0 = (step & 255) as usize;
        let mut prev: u64 = self.shuffled_integers[idx0] as u64;
        let mut result: u64 = prev << 56u64;
        let mut i: u64 = 1;
        while i < 8
            invariant
                1 <= i <= 8,
                self.shuffled_integers@.len() == 256,
                u64_uniform_permutation(self.shuffled(), step) == u64_permutation_from(
                    self.shuffled(),
                    step,
                    i,
                    prev,
                    result,
                ),
            decreases 8 - i,
        {
            let shifted: u64 = step >> (i * 8);
            let idx = (shifted ^ prev) & 255;
            proof {
                assert((shifted ^ prev) & 255 < 256) by (bit_vector);
            }
            prev = self.shuffled_integers[idx as usize] as u64;
            result = result | (prev << ((7 - i) * 8));
            i += 1;
        }
        let unsigned: u64 = result;
        // Two's-complement reinterpretation, spelled out so that every
        // cast stays in range.
        if unsigned <= 9223372036854775807 {
            unsigned as i64
        } else {
            let distance = 18446744073709551615 - unsigned;
            -(distance as i64) - 1
        }
    }
}

impl Default for I64Mutator {
    /// Precomputes the same shuffled-bytes table as `U8Mutator`.
    fn default() -> (r: Self)
        ensures
            r.shuffled().len() == 256,
            forall|i: int|
                0 <= i < 256 ==> r.shuffled()[i] as int == binary_search_arbitrary_spec(0, 255, i),
    {
        let mut table: Vec<u8> = Vec::new();
        let mut i: usize = 0;
        while i < 256
            invariant
                i <= 256,
                table@.len() == i,
                forall|j: int|
                    0 <= j < i ==> table@[j] as int == binary_search_arbitrary_spec(0, 255, j),
            decreases 256 - i,
        {
            table.push(binary_search_arbitrary(0, 255, i as u64));
            i += 1;
        }
        I64Mutator { shuffled_integers: table, rng: rng_new() }
    }
}

impl Mutator<i64> for I64Mutator {
    type Cache = ();

    type MutationStep = u64;

    type ArbitraryStep = u64;

    type UnmutateToken = i64;

    type RecursingPartIndex = ();

    open spec fn valid(&self, v: i64, c: ()) -> bool {
        true
    }

    open spec fn spec_min_complexity(&self) -> u64 {
        8
    }

    open spec fn spec_max_complexity(&self) -> u64 {
        8
    }

    open spec fn spec_complexity(&self, v: i64, c: ()) -> u64 {
        8
    }

    open spec fn spec_unmutate(&self, v: i64, c: (), t: i64) -> (i64, ()) {
        (t, ())
    }

    fn default_arbitrary_step(&self) -> u64 {
        0
    }

    fn validate_value(&self, value: &i64) -> (r: Option<()>)
        ensures
            r is Some,
    {
        Some(())
    }

    fn default_mutation_step(&self, value: &i64, cache: &()) -> u64 {
        0
    }

    fn min_complexity(&self) -> u64 {
        8
    }

    fn max_complexity(&self) -> u64 {
        8
    }

    fn complexity(&self, value: &i64, cache: &()) -> u64 {
        8
    }

    /// The `u64` range is never exhausted within the reachable step
    /// values: every call yields the next value of the permutation,
    /// reinterpreted as signed.
    fn ordered_arbitrary(&self, step: &mut u64, max_cplx: u64) -> (r: Option<(i64, u64)>)
        ensures
            (r matches Some((v, c)) && v as int == wrap_i64(
                u64_uniform_permutation(self.shuffled(), *old(step)) as int,
            ) && c == 8),
            *final(step) == (*old(step) + 1) % 0x1_0000_0000_0000_0000,
    {
        let value = self.uniform_permutation(*step);
        *step = step.wrapping_add(1);
        Some((value, 8))
    }

    fn random_arbitrary(&self, max_cplx: u64) -> (r: (i64, u64))
        ensures
            r.1 == 8,
    {
        (self.uniform_permutation(rng_u64(&self.rng)), 8)
    }

    /// The first 8 steps nudge the value by +1, -1, +2, -2, +3, -3, +4, -4
    /// with wrap-around; later steps jump through the reinterpreted
    /// permutation. The token is the previous value.
    fn ordered_mutate(&self, value: &mut i64, cache: &mut (), step: &mut u64, max_cplx: u64) -> (r:
        Option<(i64, u64)>)
        ensures
            (r matches Some((t, c)) && t == *old(value) && c == 8),
            *final(value) as int == i64_mutated(self.shuffled(), *old(value), *old(step)),
            *final(step) == (*old(step) + 1) % 0x1_0000_0000_0000_0000,
    {
        let token = *value;
        if *step < 8 {
            let nudge = (*step + 2) as i64;
            if nudge % 2 == 0 {
                *value = value.wrapping_add(nudge / 2);
            } else {
                *value = value.wrapping_sub(nudge / 2);
            }
        } else {
            *value = self.uniform_permutation(*step - 7);
        }
        *step = step.wrapping_add(1);
        Some((token, 8))
    }

    fn random_mutate(&self, value: &mut i64, cache: &mut (), max_cplx: u64) -> (r: (i64, u64))
        ensures
            r == (*old(value), 8u64),
    {
        let token = *value;
        *value = rng_i64(&self.rng);
        (token, 8)
    }

    fn unmutate(&self, value: &mut i64, cache: &mut (), t: i64)
        ensures
            *final(value) == t,
    {
        *value = t;
    }

    fn default_recursing_part_index(&self, value: &i64, cache: &()) -> () {
        ()
    }

    fn recursing_part<'a, V, N>(&self, parent: &N, value: &'a i64, index: &mut ()) -> (r: Option<
        &'a V,
    >) where V: Clone + 'static, N: 'static
        ensures
            r is None,
    {
        None
    }
}

} // verus!
