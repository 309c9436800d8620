//! Seed mixing and the small deterministic generators of the tools.

use vstd::prelude::*;

verus! {

/// The odd 64-bit constant nearest to the golden ratio, by which seeds are spread.
pub const GOLDEN_GAMMA: u64 = 0x9E37_79B9_7F4A_7C15;

/// The bits of `value` moved 17 places to the left, those that leave coming back at the right.
pub open spec fn rotated_left_17(value: u64) -> u64 {
    (value << 17) | (value >> 47)
}

/// The seed of the element `index` of a family seeded by `seed`.
pub open spec fn mixed_seed(seed: u64, index: u64) -> u64 {
    seed ^ rotated_left_17(index.wrapping_mul(GOLDEN_GAMMA))
}

/// Derives the seed of one element of an indexed family.
pub fn mix_seed(seed: u64, index: u64) -> (mixed: u64)
    ensures
        mixed == mixed_seed(seed, index),
{
    let spread: u64 = index.wrapping_mul(GOLDEN_GAMMA);
    seed ^ ((spread << 17) | (spread >> 47))
}

/// Multiplying by this number undoes multiplying by `GOLDEN_GAMMA`, modulo two to the 64.
spec fn gamma_inverse() -> int {
    0xf1de_83e1_9937_733d
}

proof fn lemma_spread_undone(index: u64)
    ensures
        (index.wrapping_mul(GOLDEN_GAMMA) * gamma_inverse()) % 0x1_0000_0000_0000_0000 == index,
{
    let modulus: int = 0x1_0000_0000_0000_0000;
    let gamma: int = GOLDEN_GAMMA as int;
    let product: int = index * gamma;
    assert(index.wrapping_mul(GOLDEN_GAMMA) == product % modulus);
    vstd::arithmetic::div_mod::lemma_mul_mod_noop_left(product, gamma_inverse(), modulus);
    vstd::arithmetic::mul::lemma_mul_is_associative(index as int, gamma, gamma_inverse());
    vstd::arithmetic::div_mod::lemma_mul_mod_noop_right(
        index as int,
        gamma * gamma_inverse(),
        modulus,
    );
    assert((gamma * gamma_inverse()) % modulus == 1);
}

/// Spreading keeps different numbers apart.
pub proof fn lemma_spread_differs(first: u64, second: u64)
    requires
        first != second,
    ensures
        first.wrapping_mul(GOLDEN_GAMMA) != second.wrapping_mul(GOLDEN_GAMMA),
{
    lemma_spread_undone(first);
    lemma_spread_undone(second);
}

/// Different indices of one family get different seeds.
pub proof fn law_mixed_seeds_differ(seed: u64, first: u64, second: u64)
    requires
        first != second,
    ensures
        mixed_seed(seed, first) != mixed_seed(seed, second),
{
    lemma_spread_differs(first, second);
    let left: u64 = first.wrapping_mul(GOLDEN_GAMMA);
    let right: u64 = second.wrapping_mul(GOLDEN_GAMMA);
    assert(left != right ==> seed ^ ((left << 17) | (left >> 47)) != seed ^ ((right << 17) | (right
        >> 47))) by (bit_vector);
}

/// Turning the bits on by the other 47 places brings them back.
pub proof fn law_rotations_turn_back(value: u64)
    ensures
        (rotated_left_17(value) << 47) | (rotated_left_17(value) >> 17) == value,
{
    assert((((value << 17) | (value >> 47)) << 47) | (((value << 17) | (value >> 47)) >> 17)
        == value) by (bit_vector);
}

/// The first element of a family has the family's own seed, and the seeds of one element in two
/// families differ as those of the families do.
pub proof fn law_mixing_keeps_families_apart(seed: u64, other: u64, index: u64)
    ensures
        mixed_seed(seed, 0) == seed,
        mixed_seed(seed, index) ^ mixed_seed(other, index) == seed ^ other,
{
    let turned = rotated_left_17(index.wrapping_mul(GOLDEN_GAMMA));
    assert((seed ^ turned) ^ (other ^ turned) == seed ^ other) by (bit_vector);
    assert(0u64.wrapping_mul(GOLDEN_GAMMA) == 0);
    assert((0u64 << 17) | (0u64 >> 47) == 0u64) by (bit_vector);
    assert(seed ^ 0u64 == seed) by (bit_vector);
}

/// The state after one step of the generator.
pub open spec fn split_mix_state(state: u64) -> u64 {
    state.wrapping_add(GOLDEN_GAMMA)
}

/// The output that belongs to a state.
pub open spec fn split_mix_output(state: u64) -> u64 {
    let first = (state ^ (state >> 30)).wrapping_mul(0xBF58_476D_1CE4_E5B9);
    let second = (first ^ (first >> 27)).wrapping_mul(0x94D0_49BB_1331_11EB);
    second ^ (second >> 31)
}

/// A generator that steps a counter and scrambles it.
pub struct SplitMix64 {
    pub state: u64,
}

impl SplitMix64 {
    /// A generator that starts behind `state`.
    pub fn new(state: u64) -> (result: Self)
        ensures
            result.state == state,
    {
        SplitMix64 { state }
    }

    /// Steps the generator and gives its next 64 bits.
    pub fn next_u64(&mut self) -> (value: u64)
        ensures
            final(self).state == split_mix_state(old(self).state),
            value == split_mix_output(final(self).state),
    {
        self.state = self.state.wrapping_add(GOLDEN_GAMMA);
        let state: u64 = self.state;
        let first: u64 = (state ^ (state >> 30)).wrapping_mul(0xBF58_476D_1CE4_E5B9);
        let second: u64 = (first ^ (first >> 27)).wrapping_mul(0x94D0_49BB_1331_11EB);
        second ^ (second >> 31)
    }

    /// Steps the generator and gives the upper 24 of its next 64 bits.
    pub fn next_bits24(&mut self) -> (value: u32)
        ensures
            final(self).state == split_mix_state(old(self).state),
            value == split_mix_output(final(self).state) >> 40,
            value < 0x100_0000,
    {
        let next: u64 = self.next_u64();
        assert(next >> 40 < 0x100_0000) by (bit_vector);
        (next >> 40) as u32
    }
}

/// The state of the generator that starts at `seed`, after `count` steps.
pub open spec fn split_mix_after(seed: u64, count: nat) -> u64
    decreases count,
{
    if count == 0 {
        seed
    } else {
        split_mix_state(split_mix_after(seed, (count - 1) as nat))
    }
}

/// The draw of number `index` of the generator that starts at `seed`.
pub open spec fn draw24(seed: u64, index: nat) -> u32 {
    (split_mix_output(split_mix_after(seed, index + 1)) >> 40) as u32
}

/// Draws 24 bits `count` times from a fresh generator.
pub fn draws24(seed: u64, count: usize) -> (draws: Vec<u32>)
    ensures
        draws@.len() == count,
        forall|i: int| 0 <= i < count ==> #[trigger] draws@[i] == draw24(seed, i as nat),
{
    let mut rng = SplitMix64::new(seed);
    let mut draws: Vec<u32> = Vec::new();
    let mut index: usize = 0;
    while index < count
        invariant
            index == draws@.len(),
            index <= count,
            rng.state == split_mix_after(seed, index as nat),
            forall|i: int| 0 <= i < index ==> #[trigger] draws@[i] == draw24(seed, i as nat),
        decreases count - index,
    {
        draws.push(rng.next_bits24());
        index = index + 1;
    }
    draws
}

/// The state that follows `state`: three shift-and-combine steps.
pub open spec fn xor_shift(state: u64) -> u64 {
    let first = state ^ (state << 13);
    let second = first ^ (first >> 7);
    second ^ (second << 17)
}

proof fn lemma_xor_shift_nonzero(state: u64)
    by (bit_vector)
    requires
        state != 0,
    ensures
        (state ^ (state << 13)) ^ ((state ^ (state << 13)) >> 7) ^ (((state ^ (state << 13)) ^ ((
        state ^ (state << 13)) >> 7)) << 17) != 0,
{
}

/// A generator whose 64-bit state is never zero.
pub struct XorShift64 {
    pub state: u64,
}

impl XorShift64 {
    /// The state differs from zero, the one value that the steps would keep forever.
    pub open spec fn well_formed(self) -> bool {
        self.state != 0
    }

    /// A generator that starts at `seed`, or at one where the seed is zero.
    pub fn new(seed: u64) -> (result: Self)
        ensures
            result.state == (if seed == 0 { 1u64 } else { seed }),
            result.well_formed(),
    {
        if seed == 0 {
            XorShift64 { state: 1 }
        } else {
            XorShift64 { state: seed }
        }
    }

    /// Steps the generator and gives the upper 24 bits of the new state.
    pub fn next_bits24(&mut self) -> (value: u32)
        requires
            old(self).well_formed(),
        ensures
            final(self).state == xor_shift(old(self).state),
            final(self).well_formed(),
            value == final(self).state >> 40,
            value < 0x100_0000,
    {
        let start: u64 = self.state;
        let first: u64 = start ^ (start << 13);
        let second: u64 = first ^ (first >> 7);
        let third: u64 = second ^ (second << 17);
        proof {
            lemma_xor_shift_nonzero(start);
        }
        self.state = third;
        assert(third >> 40 < 0x100_0000) by (bit_vector);
        (third >> 40) as u32
    }
}

} // verus!
