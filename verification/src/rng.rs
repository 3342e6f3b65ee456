//! The MT19937 Mersenne Twister, seeded with Knuth's multiplicative generator.

use vstd::prelude::*;

verus! {

/// Number of words in the generator state.
pub const STATE_VECTOR_LENGTH: usize = 624;

/// Distance between the two words combined by one twist step.
pub const STATE_VECTOR_M: usize = 397;

pub const UPPER_MASK: u32 = 0x8000_0000;

pub const LOWER_MASK: u32 = 0x7fff_ffff;

pub const TEMPERING_MASK_B: u32 = 0x9d2c_5680;

pub const TEMPERING_MASK_C: u32 = 0xefc6_0000;

/// The twist matrix coefficient, xored in when the combined word is odd.
pub const MATRIX_A: u32 = 0x9908_b0df;

/// One twist step: the upper bit of `a` joined with the lower bits of `b`,
/// shifted, conditionally xored with the matrix, and xored into `src`.
pub open spec fn twist_mix(a: u32, b: u32, src: u32) -> u32 {
    let y = (a & UPPER_MASK) | (b & LOWER_MASK);
    src ^ ((y >> 1u32) ^ (if y % 2 == 1 { MATRIX_A } else { 0u32 }))
}

fn mix(a: u32, b: u32, src: u32) -> (r: u32)
    ensures
        r == twist_mix(a, b, src),
{
    let mag: [u32; 2] = [0u32, MATRIX_A];
    let y = (a & UPPER_MASK) | (b & LOWER_MASK);
    let odd: usize = if y % 2 == 1 { 1 } else { 0 };
    src ^ ((y >> 1u32) ^ mag[odd])
}

/// Word `k` of the state after one full twist of `old`.  Words below
/// `N - M` read an untouched word `M` places ahead; later words read a word
/// that the same twist has already rewritten, and the last word wraps around
/// to the rewritten word 0.
pub open spec fn twisted_word(old: Seq<u32>, k: nat) -> u32
    decreases k,
{
    let n = STATE_VECTOR_LENGTH as nat;
    let m = STATE_VECTOR_M as nat;
    if k < n - m {
        twist_mix(old[k as int], old[k + 1int], old[(k + m) as int])
    } else if k < n - 1 {
        twist_mix(old[k as int], old[k + 1int], twisted_word(old, (k - (n - m)) as nat))
    } else {
        twist_mix(old[k as int], twisted_word(old, 0), twisted_word(old, (m - 1) as nat))
    }
}

/// The state after regenerating all words at once.
pub open spec fn twisted(old: Seq<u32>) -> Seq<u32> {
    Seq::new(STATE_VECTOR_LENGTH as nat, |k: int| twisted_word(old, k as nat))
}

/// The tempering transform applied to a state word before it is handed out.
pub open spec fn tempered(w: u32) -> u32 {
    let z1 = w ^ (w >> 11u32);
    let z2 = z1 ^ ((z1 << 7u32) & TEMPERING_MASK_B);
    let z3 = z2 ^ ((z2 << 15u32) & TEMPERING_MASK_C);
    z3 ^ (z3 >> 18u32)
}

/// Word `i` of the state seeded with `seed`: the seed, then each word
/// 6069 times the previous one, modulo 2^32.
pub open spec fn seed_word(seed: u32, i: nat) -> u32
    decreases i,
{
    if i == 0 {
        seed
    } else {
        ((6069 * seed_word(seed, (i - 1) as nat)) % 0x1_0000_0000) as u32
    }
}

/// The whole state seeded with `seed`.
pub open spec fn seeded(seed: u32) -> Seq<u32> {
    Seq::new(STATE_VECTOR_LENGTH as nat, |i: int| seed_word(seed, i as nat))
}

/// The seed used when the generator finds its position past the
/// regeneration point.
pub const FALLBACK_SEED: u32 = 4357;

/// The state from which a draw at `position` reads: regenerated when the
/// position has reached the end of the state.
pub open spec fn refreshed(state: Seq<u32>, position: nat) -> Seq<u32> {
    if position >= STATE_VECTOR_LENGTH {
        if position >= STATE_VECTOR_LENGTH + 1 {
            twisted(seeded(FALLBACK_SEED))
        } else {
            twisted(state)
        }
    } else {
        state
    }
}

/// The index of the word that a draw at `position` reads.
pub open spec fn read_index(position: nat) -> nat {
    if position >= STATE_VECTOR_LENGTH { 0 } else { position }
}

/// The value produced by a draw from `state` at `position`.
pub open spec fn drawn(state: Seq<u32>, position: nat) -> u32 {
    tempered(refreshed(state, position)[read_index(position) as int])
}

/// The position after a draw at `position`.
pub open spec fn next_position(position: nat) -> nat {
    read_index(position) + 1
}

/// Right after seeding, the first draw regenerates the whole state and hands
/// out its first word, tempered; the draws after it read the regenerated
/// words in order.
pub proof fn lemma_first_draws(seed: u32)
    ensures
        refreshed(seeded(seed), STATE_VECTOR_LENGTH as nat) == twisted(seeded(seed)),
        drawn(seeded(seed), STATE_VECTOR_LENGTH as nat) == tempered(twisted(seeded(seed))[0]),
        next_position(STATE_VECTOR_LENGTH as nat) == 1,
        forall|k: nat|
            1 <= k < STATE_VECTOR_LENGTH ==> #[trigger] drawn(twisted(seeded(seed)), k) == tempered(
                twisted(seeded(seed))[k as int],
            ) && refreshed(twisted(seeded(seed)), k) == twisted(seeded(seed)) && next_position(k) == k + 1,
{
}

/// Term `i` of the MT19937 recurrence from `seed`: the 624 seed words, then
/// each term the twist of the terms 624, 623 and 227 places before it.
pub open spec fn mt_word(seed: u32, i: nat) -> u32
    decreases i,
{
    if i < STATE_VECTOR_LENGTH {
        seed_word(seed, i)
    } else {
        twist_mix(
            mt_word(seed, (i - 624) as nat),
            mt_word(seed, (i - 623) as nat),
            mt_word(seed, (i - 227) as nat),
        )
    }
}

/// The state and position of a generator seeded with `seed` after `k` draws.
pub open spec fn after_draws(seed: u32, k: nat) -> (Seq<u32>, nat)
    decreases k,
{
    if k == 0 {
        (seeded(seed), STATE_VECTOR_LENGTH as nat)
    } else {
        let (state, position) = after_draws(seed, (k - 1) as nat);
        (refreshed(state, position), next_position(position))
    }
}

/// The value of draw number `k` (from 0) of a generator seeded with `seed`.
pub open spec fn nth_draw(seed: u32, k: nat) -> u32 {
    drawn(after_draws(seed, k).0, after_draws(seed, k).1)
}

/// Regenerating a state that holds terms `base .. base + 624` of the
/// recurrence gives the next 624 terms: word `k` of the regeneration.
proof fn lemma_twisted_word_is_term(seed: u32, base: nat, old: Seq<u32>, k: nat)
    requires
        old.len() == STATE_VECTOR_LENGTH,
        forall|i: int| 0 <= i < STATE_VECTOR_LENGTH ==> #[trigger] old[i] == mt_word(seed, (base + i) as nat),
        k < STATE_VECTOR_LENGTH,
    ensures
        twisted_word(old, k) == mt_word(seed, base + 624 + k),
    decreases k,
{
    assert(mt_word(seed, base + 624 + k) == twist_mix(
        mt_word(seed, (base + k) as nat),
        mt_word(seed, (base + k + 1) as nat),
        mt_word(seed, (base + k + 397) as nat),
    ));
    if k < 227 {
        assert(old[k as int] == mt_word(seed, (base + k) as nat));
        assert(old[k + 1int] == mt_word(seed, (base + k + 1) as nat));
        assert(old[k + 397int] == mt_word(seed, (base + k + 397) as nat));
    } else if k < 623 {
        lemma_twisted_word_is_term(seed, base, old, (k - 227) as nat);
        assert(old[k as int] == mt_word(seed, (base + k) as nat));
        assert(old[k + 1int] == mt_word(seed, (base + k + 1) as nat));
    } else {
        lemma_twisted_word_is_term(seed, base, old, 0);
        lemma_twisted_word_is_term(seed, base, old, 396);
        assert(old[k as int] == mt_word(seed, (base + k) as nat));
    }
}

/// Regenerating a state that holds terms `base .. base + 624` of the
/// recurrence gives the next 624 terms.
proof fn lemma_twisted_block(seed: u32, base: nat, old: Seq<u32>)
    requires
        old.len() == STATE_VECTOR_LENGTH,
        forall|i: int| 0 <= i < STATE_VECTOR_LENGTH ==> #[trigger] old[i] == mt_word(seed, (base + i) as nat),
    ensures
        forall|i: int| 0 <= i < STATE_VECTOR_LENGTH ==> #[trigger] twisted(old)[i] == mt_word(seed, (base + 624 + i) as nat),
{
    assert forall|i: int| 0 <= i < STATE_VECTOR_LENGTH implies #[trigger] twisted(old)[i] == mt_word(
        seed,
        (base + 624 + i) as nat,
    ) by {
        lemma_twisted_word_is_term(seed, base, old, i as nat);
    }
}

/// After `k` draws the state holds a block of 624 consecutive terms of the
/// recurrence, and the position is where the next term to hand out lies.
proof fn lemma_after_draws(seed: u32, k: nat)
    ensures
        after_draws(seed, k).0.len() == STATE_VECTOR_LENGTH,
        forall|i: int| 0 <= i < STATE_VECTOR_LENGTH ==> #[trigger] after_draws(seed, k).0[i] == mt_word(
            seed,
            (624 * ((k + 623) / 624) + i) as nat,
        ),
        after_draws(seed, k).1 == if k % 624 == 0 { 624 } else { k % 624 },
    decreases k,
{
    if k > 0 {
        lemma_after_draws(seed, (k - 1) as nat);
        let j = (k - 1) as nat;
        let (state, position) = after_draws(seed, j);
        let base = 624 * ((j + 623) / 624);
        if j % 624 == 0 {
            lemma_twisted_block(seed, base as nat, state);
            assert((k + 623) / 624 == (j + 623) / 624 + 1);
        } else {
            assert((k + 623) / 624 == (j + 623) / 624);
        }
    }
}

/// Draw number `k` (from 0) of a generator seeded with `seed` is term
/// `624 + k` of the MT19937 recurrence, tempered: the in-place regeneration
/// of 624 words at a time, started right after seeding, produces the terms
/// of the recurrence in order.
pub proof fn lemma_draws_follow_recurrence(seed: u32, k: nat)
    ensures
        nth_draw(seed, k) == tempered(mt_word(seed, 624 + k)),
{
    lemma_after_draws(seed, k);
    let (state, position) = after_draws(seed, k);
    if k % 624 == 0 {
        lemma_twisted_block(seed, (624 * ((k + 623) / 624)) as nat, state);
        assert(624 * ((k + 623) / 624) + 624 == 624 + k);
    } else {
        assert(624 * ((k + 623) / 624) + k % 624 == 624 + k);
    }
}

/// A Mersenne Twister pseudo-random generator.
pub struct Rng {
    mt: [u32; 624],
    index: usize,
}

impl Rng {
    /// The words of the state.
    pub closed spec fn state(&self) -> Seq<u32> {
        self.mt@
    }

    /// The index of the next word to hand out; the state is regenerated
    /// when it reaches the end.
    pub closed spec fn position(&self) -> nat {
        self.index as nat
    }

    /// The position never passes the regeneration point.
    pub open spec fn wf(&self) -> bool {
        self.position() <= STATE_VECTOR_LENGTH
    }

    /// A generator seeded with `seed`, positioned at the end of the state so
    /// that the first draw regenerates it, as MT19937 does; the generator has
    /// then made no draw: its state and position are `after_draws(seed, 0)`.
    pub fn new(seed: u32) -> (rng: Rng)
        ensures
            rng.wf(),
            (rng.state(), rng.position()) == after_draws(seed, 0),
            rng.state() == seeded(seed),
            rng.position() == STATE_VECTOR_LENGTH,
    {
        let mut rng = Rng { mt: [0u32; 624], index: STATE_VECTOR_LENGTH };
        rng.set_rng(seed);
        rng
    }

    fn set_rng(&mut self, seed: u32)
        ensures
            final(self).state() == seeded(seed),
            final(self).index == old(self).index,
    {
        proof {
            assert(seed & 0xffff_ffffu32 == seed) by (bit_vector);
        }
        self.mt[0] = seed & 0xffff_ffffu32;
        let mut i: usize = 1;
        while i < STATE_VECTOR_LENGTH
            invariant
                1 <= i <= STATE_VECTOR_LENGTH,
                self.index == old(self).index,
                forall|j: int| 0 <= j < i ==> self.mt@[j] == seed_word(seed, j as nat),
            decreases STATE_VECTOR_LENGTH - i,
        {
            let prev = self.mt[i - 1];
            self.mt[i] = 6069u32.wrapping_mul(prev);
            proof {
                assert(seed_word(seed, i as nat) == ((6069 * seed_word(seed, (i - 1) as nat)) % 0x1_0000_0000) as u32);
            }
            i += 1;
        }
        assert(self.mt@ =~= seeded(seed));
    }

    /// Regenerates every word of the state in place.
    fn twist(&mut self)
        ensures
            final(self).state() == twisted(old(self).state()),
            final(self).index == old(self).index,
    {
        let ghost old_mt = self.mt@;
        let mut kk: usize = 0;
        while kk < STATE_VECTOR_LENGTH - STATE_VECTOR_M
            invariant
                kk <= STATE_VECTOR_LENGTH - STATE_VECTOR_M,
                self.index == old(self).index,
                old_mt == old(self).mt@,
                forall|j: int| 0 <= j < kk ==> self.mt@[j] == twisted_word(old_mt, j as nat),
                forall|j: int| kk <= j < STATE_VECTOR_LENGTH ==> self.mt@[j] == old_mt[j],
            decreases STATE_VECTOR_LENGTH - STATE_VECTOR_M - kk,
        {
            let w = mix(self.mt[kk], self.mt[kk + 1], self.mt[kk + STATE_VECTOR_M]);
            self.mt[kk] = w;
            kk += 1;
        }
        while kk < STATE_VECTOR_LENGTH - 1
            invariant
                STATE_VECTOR_LENGTH - STATE_VECTOR_M <= kk <= STATE_VECTOR_LENGTH - 1,
                self.index == old(self).index,
                old_mt == old(self).mt@,
                forall|j: int| 0 <= j < kk ==> self.mt@[j] == twisted_word(old_mt, j as nat),
                forall|j: int| kk <= j < STATE_VECTOR_LENGTH ==> self.mt@[j] == old_mt[j],
            decreases STATE_VECTOR_LENGTH - 1 - kk,
        {
            let w = mix(self.mt[kk], self.mt[kk + 1], self.mt[kk + STATE_VECTOR_M - STATE_VECTOR_LENGTH]);
            self.mt[kk] = w;
            kk += 1;
        }
        let w = mix(self.mt[STATE_VECTOR_LENGTH - 1], self.mt[0], self.mt[STATE_VECTOR_M - 1]);
        self.mt[STATE_VECTOR_LENGTH - 1] = w;
        assert(self.mt@ =~= twisted(old_mt));
    }

    /// Generates a pseudo-random 32-bit word.
    pub fn u32(&mut self) -> (r: u32)
        ensures
            final(self).wf(),
            r == drawn(old(self).state(), old(self).position()),
            final(self).state() == refreshed(old(self).state(), old(self).position()),
            final(self).position() == next_position(old(self).position()),
    {
        if self.index >= STATE_VECTOR_LENGTH {
            if self.index >= STATE_VECTOR_LENGTH + 1 {
                self.set_rng(FALLBACK_SEED);
            }
            self.twist();
            self.index = 0;
        }
        let mut z: u32 = self.mt[self.index];
        self.index += 1;
        z = z ^ (z >> 11u32);
        z = z ^ ((z << 7u32) & TEMPERING_MASK_B);
        z = z ^ ((z << 15u32) & TEMPERING_MASK_C);
        z = z ^ (z >> 18u32);
        z
    }

    /// Generates a pseudo-random 64-bit word: the first draw gives the high
    /// half and the second draw the low half.
    pub fn u64(&mut self) -> (r: u64)
        ensures
            final(self).wf(),
            r == drawn(old(self).state(), old(self).position()) * 0x1_0000_0000
                + drawn(
                refreshed(old(self).state(), old(self).position()),
                next_position(old(self).position()),
            ),
            final(self).state() == refreshed(
                refreshed(old(self).state(), old(self).position()),
                next_position(old(self).position()),
            ),
            final(self).position() == next_position(next_position(old(self).position())),
    {
        let hi = self.u32();
        let lo = self.u32();
        let r = (hi as u64) << 32u64 | lo as u64;
        proof {
            assert(((hi as u64) << 32u64 | lo as u64) == hi * 0x1_0000_0000 + lo) by (bit_vector);
        }
        r
    }
}

} // verus!
