//! Bias-free sampling of alphabet indices from 64-bit draws, and the sizing
//! rule that turns a requested bit strength into an element count. A draw is
//! accepted only below the rejection threshold, and an accepted draw is
//! reduced modulo the alphabet size; each draw comes from a freshly seeded
//! generator instance, so no state is carried between symbols.

use vstd::prelude::*;

use vstd::arithmetic::div_mod::{lemma_fundamental_div_mod, lemma_mod_multiples_vanish,
    lemma_small_mod};
use vstd::arithmetic::power2::{lemma2_to64, lemma_pow2_adds, lemma_pow2_pos,
    lemma_pow2_strictly_increases, pow2};
use vstd::bits::lemma_u64_shl_is_mul;
use vstd::set_lib::{lemma_int_range, set_int_range};

verus! {

/// Whether a raw 64-bit draw is accepted for an alphabet of `count`
/// elements: everything above `u64::MAX - count` is discarded and redrawn.
pub open spec fn sample_accepted(word: u64, count: u64) -> bool {
    word <= u64::MAX - count
}

/// Reduces one raw draw to an alphabet index, or rejects it. A word at or
/// below the rejection threshold yields exactly `word % count`, always below
/// `count`; a word above it yields nothing and the caller redraws. Rejection
/// is the only condition here that is absorbed rather than fatal.
pub fn unbiased_index(word: u64, count: u64) -> (r: Option<u64>)
    requires
        count >= 1,
    ensures
        sample_accepted(word, count) ==> r == Some(word % count) && (word % count) < count,
        !sample_accepted(word, count) ==> r is None,
{
    if word <= u64::MAX - count {
        Some(word % count)
    } else {
        None
    }
}

/// The number of whole bits one element of an alphabet carries, defined for
/// the alphabet sizes where that number is exact: a size that is a power of
/// two, at least two. Any other size has no whole bit count and yields
/// nothing.
pub fn bits_per_element(count: u64) -> (r: Option<u32>)
    ensures
        r matches Some(b) ==> 1 <= b < 64 && count == (1u64 << b),
        r is None ==> forall|b: u32| 1 <= b < 64 ==> count != (1u64 << b),
{
    let mut k: u32 = 1;
    while k < 64
        invariant
            1 <= k <= 64,
            forall|b: u32| 1 <= b < k ==> count != (1u64 << b),
        decreases 64 - k,
    {
        if (1u64 << k) == count {
            return Some(k);
        }
        k = k + 1;
    }
    None
}

/// How many elements a generated value needs so that it carries at least
/// `bits` bits of strength at `bits_per` bits per element: the smallest
/// count whose total reaches `bits`.
pub fn num_elements(bits: u32, bits_per: u32) -> (r: u32)
    requires
        bits_per >= 1,
    ensures
        r as int * (bits_per as int) >= bits as int,
        (r as int - 1) * (bits_per as int) < (bits as int),
{
    let q: u64 = ((bits as u64) + (bits_per as u64) - 1) / (bits_per as u64);
    proof {
        let b = bits as int;
        let p = bits_per as int;
        assert(q == (b + p - 1) / p);
        assert((b + p - 1) / p * p >= b && ((b + p - 1) / p - 1) * p < b) by (nonlinear_arith)
            requires
                p >= 1,
                b >= 0,
        ;
        assert(q <= b) by (nonlinear_arith)
            requires
                p >= 1,
                b >= 0,
                q == (b + p - 1) / p,
        ;
    }
    q as u32
}

/// Exactly `count` of the 2^64 possible draws are rejected — the top
/// `count` words — so the rejection probability of one draw is exactly
/// `count / 2^64`.
pub proof fn lemma_rejected_count(count: u64)
    requires
        count >= 1,
    ensures
        Set::new(|w: int| 0 <= w <= u64::MAX && !sample_accepted(w as u64, count)).finite(),
        Set::new(|w: int| 0 <= w <= u64::MAX && !sample_accepted(w as u64, count)).len()
            == count,
{
    let rejected = Set::new(|w: int| 0 <= w <= u64::MAX && !sample_accepted(w as u64, count));
    let top = set_int_range(u64::MAX as int - count as int + 1, u64::MAX as int + 1);
    assert(rejected =~= top);
    lemma_int_range(u64::MAX as int - count as int + 1, u64::MAX as int + 1);
}

/// For an alphabet size that is a power of two, the accepted draws are
/// spread evenly over the indices: translating any accepted draw from its
/// own index to any index `j` lands on another accepted draw with index
/// `j`, and translating back returns the original draw. The translation is
/// therefore a bijection between the accepted draws of any two indices, so
/// each index has exactly as many accepted draws as any other.
pub proof fn lemma_unbiased_translation(count: u64, b: u32, w: u64, j: u64)
    requires
        1 <= b < 64,
        count == (1u64 << b),
        sample_accepted(w, count),
        j < count,
    ensures
        w as int - (w % count) as int + j as int <= u64::MAX as int - count as int,
        (w as int - (w % count) as int + j as int) % (count as int) == j as int,
        (w as int - (w % count) as int + j as int) - j as int == w as int - (w % count) as int,
{
    let d = count as int;
    let wi = w as int;
    let i = (w % count) as int;

    lemma2_to64();
    lemma_pow2_strictly_increases(b as nat, 64);
    lemma_pow2_pos(b as nat);
    lemma_pow2_pos((64 - b) as nat);
    lemma_u64_shl_is_mul(1u64, b as u64);
    lemma_pow2_adds(b as nat, (64 - b) as nat);
    assert(d == pow2(b as nat));
    assert(d * pow2((64 - b) as nat) as int == 0x10000000000000000);

    let m = pow2((64 - b) as nat) as int;
    assert(d >= 1 && m >= 1);

    lemma_fundamental_div_mod(wi, d);
    let q = wi / d;
    assert(wi == q * d + i);
    assert(0 <= i < d);

    // The draw is accepted, so its class base q * d stays two steps below
    // the top multiple of d, which is exactly 2^64 because d divides 2^64.
    assert(q * d <= wi);
    assert(wi < d * m - d);
    assert(q * d < d * m - d ==> q <= m - 2) by (nonlinear_arith)
        requires
            d >= 1,
    ;
    assert(q * d + j < d * m - d) by (nonlinear_arith)
        requires
            d >= 1,
            q <= m - 2,
            0 <= j < d,
    ;
    assert(wi - i + j <= u64::MAX as int - d);

    lemma_mod_multiples_vanish(q, j as int, d);
    lemma_small_mod(j as nat, d as nat);
    assert((q * d + j) % d == j as int);
    assert(wi - i + j == q * d + j);
}

} // verus!
