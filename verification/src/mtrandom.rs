//! Mersenne Twister (MT19937): bit-exact 32-bit generation, an unbiased
//! ranged draw, and an in-place shuffle.
//!
//! The spec functions model the standard recurrence word for word, so the
//! generator's output is pinned exactly: `gen_u32` returns `next_output` of
//! the previous state and leaves the generator in `next_state` of it.

use vstd::prelude::*;
use vstd::wrapping::u32_specs;

use crate::counting::{count_of, lemma_count_update};

verus! {

/// How many rejected words the ranged draw will tolerate before it accepts
/// the next word regardless. The rejection bound is always smaller than the
/// requested range, so in practice the draw accepts within a handful of
/// words; the limit only makes termination a theorem.
pub const REDRAW_LIMIT: u64 = 4096;

/// Mathematical state of the generator: the 624 state words and the index of
/// the next word to hand out (624 means the state must be twisted first).
pub ghost struct MtView {
    pub words: Seq<u32>,
    pub index: int,
}

impl MtView {
    /// Shape of a reachable generator state.
    pub open spec fn wf(self) -> bool {
        &&& self.words.len() == 624
        &&& 0 <= self.index <= 624
    }
}

/// The `i`-th word of the seeded initial state.
pub open spec fn init_word(seed: u32, i: int) -> u32
    decreases i,
{
    if i <= 0 {
        seed
    } else {
        let prev = init_word(seed, i - 1);
        u32_specs::wrapping_add(
            u32_specs::wrapping_mul(prev ^ (prev >> 30u32), 1812433253u32),
            i as u32,
        )
    }
}

/// The state that seeding with `seed` produces.
pub open spec fn seeded(seed: u32) -> MtView {
    MtView { words: Seq::new(624, |i: int| init_word(seed, i)), index: 624 }
}

/// The replacement for state word `kk` during a twist, computed over the
/// partially rewritten state `m`: words below `kk` are already new, words
/// from `kk` up still old, exactly as the in-place pass leaves them.
pub open spec fn twist_word(m: Seq<u32>, kk: int) -> u32 {
    let y = (m[kk] & 0x8000_0000u32) | (m[(kk + 1) % 624] & 0x7fff_ffffu32);
    m[(kk + 397) % 624] ^ (y >> 1u32) ^ (if y & 1u32 == 1u32 {
        0x9908_b0dfu32
    } else {
        0u32
    })
}

/// The state after the first `k` words of a twist have been rewritten.
pub open spec fn twist_upto(m: Seq<u32>, k: int) -> Seq<u32>
    decreases k,
{
    if k <= 0 {
        m
    } else {
        let p = twist_upto(m, k - 1);
        p.update(k - 1, twist_word(p, k - 1))
    }
}

/// A full twist of the 624 state words.
pub open spec fn twist(m: Seq<u32>) -> Seq<u32> {
    twist_upto(m, 624)
}

/// The MT19937 tempering transform.
pub open spec fn temper(y0: u32) -> u32 {
    let y1 = y0 ^ (y0 >> 11u32);
    let y2 = y1 ^ ((y1 << 7u32) & 0x9d2c_5680u32);
    let y3 = y2 ^ ((y2 << 15u32) & 0xefc6_0000u32);
    y3 ^ (y3 >> 18u32)
}

/// The word one call of `gen_u32` returns from state `s`.
pub open spec fn next_output(s: MtView) -> u32 {
    if s.index >= 624 {
        temper(twist(s.words)[0])
    } else {
        temper(s.words[s.index])
    }
}

/// The state one call of `gen_u32` leaves behind.
pub open spec fn next_state(s: MtView) -> MtView {
    if s.index >= 624 {
        MtView { words: twist(s.words), index: 1 }
    } else {
        MtView { words: s.words, index: s.index + 1 }
    }
}

/// The state after `k` calls of `gen_u32`.
pub open spec fn state_after(s: MtView, k: int) -> MtView
    decreases k,
{
    if k <= 0 {
        s
    } else {
        next_state(state_after(s, k - 1))
    }
}

/// The word the `(i + 1)`-th call of `gen_u32` returns from state `s`.
pub open spec fn nth_output(s: MtView, i: int) -> u32 {
    next_output(state_after(s, i))
}

/// The size of the inclusive interval `[min, max]`.
pub open spec fn spec_range(min: u32, max: u32) -> int {
    max - min + 1
}

/// The rejection bound of the unbiased ranged draw: `2^32 mod range`. Words
/// below it are redrawn so that the accepted word is uniform modulo `range`.
pub open spec fn spec_bound(min: u32, max: u32) -> int {
    (0x1_0000_0000 - spec_range(min, max)) % spec_range(min, max)
}

/// All draws before the `k`-th fell below the rejection bound.
pub open spec fn rejected_before(s: MtView, min: u32, max: u32, k: int) -> bool {
    forall|i: int| 0 <= i < k - 1 ==> nth_output(s, i) < spec_bound(min, max)
}

/// The ranged draw from state `s` consumed exactly `k` words and returned
/// `r`: the first `k - 1` words were rejected, and the `k`-th was accepted
/// (or the redraw limit was reached) and folded into `[min, max]`.
pub open spec fn ranged_result(s: MtView, min: u32, max: u32, k: int, r: u32) -> bool {
    &&& rejected_before(s, min, max, k)
    &&& (nth_output(s, k - 1) >= spec_bound(min, max) || k == REDRAW_LIMIT)
    &&& r == min + (nth_output(s, k - 1) as int % spec_range(min, max))
}

/// How many words one ranged draw consumes from state `s`: the position of
/// the first word at or above the rejection bound, counting from `k`, capped
/// at the redraw limit.
pub open spec fn draws_consumed(s: MtView, min: u32, max: u32, k: int) -> int
    decreases REDRAW_LIMIT - k,
{
    if k >= REDRAW_LIMIT {
        REDRAW_LIMIT as int
    } else if nth_output(s, k - 1) >= spec_bound(min, max) {
        k
    } else {
        draws_consumed(s, min, max, k + 1)
    }
}

/// The exact outcome of one ranged draw from state `s`: the accepted word
/// folded into `[min, max]`, and the state after the consumed words.
pub open spec fn spec_ranged_draw(s: MtView, min: u32, max: u32) -> (u32, MtView) {
    let k = draws_consumed(s, min, max, 1);
    (
        ((min + (nth_output(s, k - 1) as int % spec_range(min, max))) as u32),
        state_after(s, k),
    )
}

/// An index whose word is accepted after only rejected words is the one the
/// consumption count names.
proof fn lemma_draws_consumed_agrees(s: MtView, min: u32, max: u32, k: int, j: int)
    requires
        1 <= j <= k <= REDRAW_LIMIT,
        rejected_before(s, min, max, k),
        nth_output(s, k - 1) >= spec_bound(min, max) || k == REDRAW_LIMIT,
    ensures
        draws_consumed(s, min, max, j) == k,
    decreases k - j,
{
    if j < k {
        assert(nth_output(s, j - 1) < spec_bound(min, max));
        lemma_draws_consumed_agrees(s, min, max, k, j + 1);
    }
}

/// The state of a shuffle that has handled the window positions below `i`:
/// each remaining position, in increasing order, swaps with one ranged draw
/// from the positions at or above it.
pub open spec fn spec_shuffle_from<T>(s: MtView, v: Seq<T>, i: int, last: int) -> (Seq<T>, MtView)
    decreases last - 1 - i,
{
    if i >= last - 1 {
        (v, s)
    } else {
        let step = spec_ranged_draw(s, i as u32, (last - 1) as u32);
        let r = step.0 as int;
        let v2 = v.update(i, v[r]).update(r, v[i]);
        spec_shuffle_from(step.1, v2, i + 1, last)
    }
}

/// The exact outcome of a shuffle of `v[first .. last]` from generator state
/// `s` (`last` is first clamped to the length): the permuted sequence and
/// the generator state left behind.
pub open spec fn spec_shuffle<T>(s: MtView, v: Seq<T>, first: int, last: int) -> (Seq<T>, MtView) {
    let lastc = if last > v.len() {
        v.len() as int
    } else {
        last
    };
    spec_shuffle_from(s, v, first, lastc)
}

/// The ranged draw is a function of the starting state: any two outcomes
/// that satisfy its contract from the same state agree on the number of
/// words consumed and on the result.
pub proof fn lemma_ranged_draw_deterministic(
    s: MtView,
    min: u32,
    max: u32,
    k1: int,
    r1: u32,
    k2: int,
    r2: u32,
)
    requires
        min <= max,
        1 <= k1 <= REDRAW_LIMIT,
        1 <= k2 <= REDRAW_LIMIT,
        ranged_result(s, min, max, k1, r1),
        ranged_result(s, min, max, k2, r2),
    ensures
        k1 == k2,
        r1 == r2,
{
    if k1 < k2 {
        assert(nth_output(s, k1 - 1) < spec_bound(min, max));
        assert(false);
    }
    if k2 < k1 {
        assert(nth_output(s, k2 - 1) < spec_bound(min, max));
        assert(false);
    }
}

/// MT19937, matching the output of the C++ standard library generator seeded
/// from a single 32-bit word.
#[derive(Debug)]
pub struct Mt19937 {
    mt: [u32; 624],
    mti: usize,
}

impl View for Mt19937 {
    type V = MtView;

    closed spec fn view(&self) -> MtView {
        MtView { words: self.mt@, index: self.mti as int }
    }
}

impl Mt19937 {
    /// Shape of a reachable generator.
    pub open spec fn wf(self) -> bool {
        self@.wf()
    }

    /// Seed the generator; the state is exactly the standard seeding
    /// recurrence applied to `seed`.
    pub fn new(seed: u32) -> (r: Self)
        ensures
            r.wf(),
            r@ == seeded(seed),
    {
        let mut mt: [u32; 624] = [0u32; 624];
        mt[0] = seed;
        let mut i: usize = 1;
        while i < 624
            invariant
                1 <= i <= 624,
                mt@.len() == 624,
                forall|j: int| 0 <= j < i ==> mt@[j] == init_word(seed, j),
            decreases 624 - i,
        {
            let prev = mt[i - 1];
            let w = (prev ^ (prev >> 30)).wrapping_mul(1812433253u32).wrapping_add(i as u32);
            proof {
                assert(prev == init_word(seed, i - 1));
                assert(w == init_word(seed, i as int));
            }
            mt[i] = w;
            i = i + 1;
        }
        let r = Mt19937 { mt, mti: 624 };
        proof {
            assert(r@.words =~= seeded(seed).words);
        }
        r
    }

    /// Produce the next tempered 32-bit word.
    pub fn gen_u32(&mut self) -> (r: u32)
        requires
            old(self).wf(),
        ensures
            final(self).wf(),
            r == next_output(old(self)@),
            final(self)@ == next_state(old(self)@),
    {
        if self.mti >= 624 {
            let ghost orig = self.mt@;
            let mut kk: usize = 0;
            while kk < 624
                invariant
                    kk <= 624,
                    self.mt@.len() == 624,
                    self.mt@ == twist_upto(orig, kk as int),
                    self.mti == old(self).mti,
                decreases 624 - kk,
            {
                let y: u32 = (self.mt[kk] & 0x8000_0000) | (self.mt[(kk + 1) % 624]
                    & 0x7fff_ffff);
                let w: u32 = self.mt[(kk + 397) % 624] ^ (y >> 1) ^ (if y & 1 == 1 {
                    0x9908_b0df
                } else {
                    0
                });
                self.mt[kk] = w;
                kk = kk + 1;
            }
            self.mti = 0;
        }
        let mut y = self.mt[self.mti];
        self.mti = self.mti + 1;
        y = y ^ (y >> 11);
        y = y ^ ((y << 7) & 0x9d2c_5680);
        y = y ^ ((y << 15) & 0xefc6_0000);
        y = y ^ (y >> 18);
        y
    }

    /// Draw a value uniformly from the inclusive interval `[min, max]`,
    /// redrawing words below the rejection bound so the result carries no
    /// modulo bias.
    pub fn get_next_integer(&mut self, min: u32, max: u32) -> (r: u32)
        requires
            old(self).wf(),
            min <= max,
            max - min < u32::MAX,
        ensures
            final(self).wf(),
            min <= r <= max,
            (r, final(self)@) == spec_ranged_draw(old(self)@, min, max),
            exists|k: int|
                1 <= k <= REDRAW_LIMIT && #[trigger] ranged_result(old(self)@, min, max, k, r)
                    && final(self)@ == state_after(old(self)@, k),
    {
        let range: u32 = max - min + 1;
        let bound: u64 = (0x1_0000_0000u64 - range as u64) % range as u64;
        let mut x = self.gen_u32();
        let mut k: u64 = 1;
        proof {
            assert(state_after(old(self)@, 0) == old(self)@);
            assert(state_after(old(self)@, 1) == next_state(old(self)@));
            assert(x == nth_output(old(self)@, 0));
            assert(bound == spec_bound(min, max));
        }
        while (x as u64) < bound && k < REDRAW_LIMIT
            invariant
                self.wf(),
                1 <= k <= REDRAW_LIMIT,
                min <= max,
                max - min < u32::MAX,
                bound == spec_bound(min, max),
                self@ == state_after(old(self)@, k as int),
                x == nth_output(old(self)@, k as int - 1),
                rejected_before(old(self)@, min, max, k as int),
            decreases REDRAW_LIMIT - k,
        {
            proof {
                assert(nth_output(old(self)@, k as int - 1) < spec_bound(min, max));
                assert(forall|i: int|
                    0 <= i < k as int ==> nth_output(old(self)@, i) < spec_bound(min, max));
            }
            x = self.gen_u32();
            k = k + 1;
        }
        let r = min + (x % range);
        proof {
            let kk = k as int;
            assert(ranged_result(old(self)@, min, max, kk, r));
            lemma_draws_consumed_agrees(old(self)@, min, max, kk, 1);
            assert((r, self@) == spec_ranged_draw(old(self)@, min, max));
        }
        r
    }

    /// Permute `v[first .. last]` in place: position `i` is swapped with a
    /// uniformly drawn position of `[i, last - 1]`, consuming one ranged
    /// draw per step. Every element keeps its multiplicity, and positions
    /// outside the window are untouched.
    pub fn shuffle_vector<T: Copy>(&mut self, v: &mut Vec<T>, first: usize, last: usize)
        requires
            old(self).wf(),
            old(v)@.len() <= u32::MAX,
        ensures
            final(self).wf(),
            final(v)@.len() == old(v)@.len(),
            (final(v)@, final(self)@) == spec_shuffle(old(self)@, old(v)@, first as int, last as int),
            forall|x: T| count_of(final(v)@, x) == count_of(old(v)@, x),
            forall|j: int|
                0 <= j < old(v)@.len() && (j < first || j >= last) ==> final(v)@[j] == old(
                    v,
                )@[j],
    {
        let ghost s0 = self@;
        let ghost v0 = old(v)@;
        let ghost last_in = last as int;
        let last = if last > v.len() {
            v.len()
        } else {
            last
        };
        let ghost lastc = last as int;
        let end = if last > 0 {
            last - 1
        } else {
            0
        };
        let mut i = first;
        while i < end
            invariant
                self.wf(),
                last > 0 ==> end == last - 1,
                last == 0 ==> end == 0,
                last <= v@.len(),
                lastc == last as int,
                v@.len() == old(v)@.len(),
                v@.len() <= u32::MAX,
                spec_shuffle_from(s0, v0, first as int, lastc) == spec_shuffle_from(
                    self@,
                    v@,
                    i as int,
                    lastc,
                ),
                forall|x: T| count_of(v@, x) == count_of(old(v)@, x),
                forall|j: int|
                    0 <= j < v@.len() && (j < first || j >= last) ==> v@[j] == old(v)@[j],
                i >= first,
            decreases end - i,
        {
            let ghost spre = self@;
            let r = self.get_next_integer(i as u32, (last - 1) as u32) as usize;
            let ghost before = v@;
            let a = v[i];
            let b = v[r];
            v.set(i, b);
            v.set(r, a);
            proof {
                assert forall|x: T| count_of(v@, x) == count_of(before, x) by {
                    lemma_count_update(before, i as int, b, x);
                    lemma_count_update(before.update(i as int, b), r as int, a, x);
                }
                assert(spec_shuffle_from(spre, before, i as int, lastc) == spec_shuffle_from(
                    self@,
                    v@,
                    i + 1,
                    lastc,
                ));
            }
            i = i + 1;
        }
        proof {
            assert(spec_shuffle_from(self@, v@, i as int, lastc) == (v@, self@));
            assert(spec_shuffle(s0, v0, first as int, last_in) == spec_shuffle_from(
                s0,
                v0,
                first as int,
                lastc,
            ));
        }
    }
}

} // verus!
