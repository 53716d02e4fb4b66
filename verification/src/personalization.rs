//! Per-instantiation personalization strings: a fixed 8-byte tag, the
//! little-endian seconds and sub-second nanoseconds of the wall clock, and
//! zero padding up to 32 bytes. A guard keeps the last issued pair and
//! refuses any value that does not strictly increase, because the
//! generator's security depends on never repeating a (seed, personalization)
//! pair.

use vstd::prelude::*;

use crate::bits::{lemma_u32_le_bytes_injective, lemma_u64_le_bytes_inverse, u32_le_bytes,
    u64_le_bytes};
use crate::errors::RngError;

verus! {

/// The fixed 8-byte tag that opens every personalization string: the ASCII
/// bytes of "kissa123".
pub open spec fn pers_tag() -> Seq<u8> {
    seq![0x6bu8, 0x69u8, 0x73u8, 0x73u8, 0x61u8, 0x31u8, 0x32u8, 0x33u8]
}

/// `n` zero bytes.
pub open spec fn zero_bytes(n: nat) -> Seq<u8> {
    Seq::new(n, |i: int| 0u8)
}

/// The full 32-byte personalization string for a wall-clock reading:
/// tag ‖ seconds (8 bytes, little-endian) ‖ nanoseconds (4 bytes,
/// little-endian) ‖ 12 zero bytes.
pub open spec fn pers_bytes(secs: u64, nanos: u32) -> Seq<u8> {
    pers_tag() + u64_le_bytes(secs) + u32_le_bytes(nanos) + zero_bytes(12)
}

/// Strict lexicographic order on (seconds, nanoseconds) pairs.
pub open spec fn pair_lt(a: (u64, u32), b: (u64, u32)) -> bool {
    a.0 < b.0 || (a.0 == b.0 && a.1 < b.1)
}

/// Relies on std::time::SystemTime: the wall clock now, as whole seconds
/// since the epoch and nanoseconds within the second. A clock before the
/// epoch reads as (0, 0). The value depends on the machine's clock at the
/// moment of the call; nothing more is promised of it.
#[verifier::external_body]
fn wall_clock_now() -> (r: (u64, u32))
    ensures
        r.1 < 1000000000,
{
    match std::time::SystemTime::now().duration_since(std::time::UNIX_EPOCH) {
        Ok(d) => (d.as_secs(), d.subsec_nanos()),
        Err(_) => (0, 0),
    }
}

/// The process-wide clock guard: the last issued (seconds, nanoseconds)
/// pair. Callers share one guard, behind whatever exclusion the embedding
/// program provides, so no two issuances can ever repeat or regress.
pub struct ClockGuard {
    last_secs: u64,
    last_nanos: u32,
}

impl View for ClockGuard {
    type V = (u64, u32);

    closed spec fn view(&self) -> (u64, u32) {
        (self.last_secs, self.last_nanos)
    }
}

impl ClockGuard {
    /// A fresh guard; every real clock reading is strictly above (0, 0).
    pub fn new() -> (r: Self)
        ensures
            r@ == (0u64, 0u32),
    {
        ClockGuard { last_secs: 0, last_nanos: 0 }
    }

    /// Issues the personalization string for one clock reading. The reading
    /// is accepted exactly when it is strictly above the last issued pair;
    /// an equal or regressing reading is refused and changes nothing.
    pub fn issue(&mut self, secs: u64, nanos: u32) -> (r: Result<Vec<u8>, RngError>)
        ensures
            pair_lt(old(self)@, (secs, nanos)) ==> (r matches Ok(p) && p@ == pers_bytes(
                secs,
                nanos,
            ) && final(self)@ == (secs, nanos)),
            !pair_lt(old(self)@, (secs, nanos)) ==> r == Err::<Vec<u8>, RngError>(
                RngError::ClockRegression,
            ) && final(self)@ == old(self)@,
    {
        if secs < self.last_secs || (secs == self.last_secs && nanos <= self.last_nanos) {
            return Err(RngError::ClockRegression);
        }
        self.last_secs = secs;
        self.last_nanos = nanos;

        let mut p: Vec<u8> = Vec::new();
        p.push(0x6b);
        p.push(0x69);
        p.push(0x73);
        p.push(0x73);
        p.push(0x61);
        p.push(0x31);
        p.push(0x32);
        p.push(0x33);
        p.push(secs as u8);
        p.push((secs >> 8) as u8);
        p.push((secs >> 16) as u8);
        p.push((secs >> 24) as u8);
        p.push((secs >> 32) as u8);
        p.push((secs >> 40) as u8);
        p.push((secs >> 48) as u8);
        p.push((secs >> 56) as u8);
        p.push(nanos as u8);
        p.push((nanos >> 8) as u8);
        p.push((nanos >> 16) as u8);
        p.push((nanos >> 24) as u8);
        let mut i: usize = 0;
        while i < 12
            invariant
                i <= 12,
                p@.len() == 20 + i,
                p@.take(20) == pers_tag() + u64_le_bytes(secs) + u32_le_bytes(nanos),
                forall|j: int| 20 <= j < p@.len() ==> p@[j] == 0u8,
            decreases 12 - i,
        {
            p.push(0);
            i = i + 1;
        }
        proof {
            assert(p@ =~= pers_bytes(secs, nanos));
        }
        Ok(p)
    }
}

/// Builds the personalization string for one generator instantiation from
/// the wall clock, under the given guard. On success the guard's pair has
/// strictly increased and the returned 32 bytes encode exactly the new pair;
/// a refused reading surfaces as `ClockRegression` and leaves the guard
/// unchanged.
pub fn generate_personalization_string(guard: &mut ClockGuard) -> (r: Result<Vec<u8>, RngError>)
    ensures
        r matches Ok(p) ==> pair_lt(old(guard)@, final(guard)@) && p@ == pers_bytes(
            final(guard)@.0,
            final(guard)@.1,
        ) && p@.len() == 32,
        r matches Err(e) ==> e == RngError::ClockRegression && final(guard)@ == old(guard)@,
{
    let (secs, nanos) = wall_clock_now();
    guard.issue(secs, nanos)
}

/// Personalization monotonicity: successive accepted issuances carry
/// strictly increasing (seconds, nanoseconds) pairs, so no two of them are
/// equal or regressing, and the issued 32-byte strings differ as well.
pub proof fn lemma_personalization_monotonic(prev: (u64, u32), a: (u64, u32), b: (u64, u32))
    requires
        pair_lt(prev, a),
        pair_lt(a, b),
    ensures
        pair_lt(prev, b),
        a != b,
        pers_bytes(a.0, a.1) != pers_bytes(b.0, b.1),
{
    lemma_pers_bytes_injective(a.0, a.1, b.0, b.1);
}

/// Distinct (seconds, nanoseconds) pairs yield distinct personalization
/// strings: the pair can be read back from the string's bytes.
pub proof fn lemma_pers_bytes_injective(s1: u64, n1: u32, s2: u64, n2: u32)
    requires
        (s1, n1) != (s2, n2),
    ensures
        pers_bytes(s1, n1) != pers_bytes(s2, n2),
{
    if pers_bytes(s1, n1) == pers_bytes(s2, n2) {
        assert(pers_bytes(s1, n1).subrange(8, 16) =~= u64_le_bytes(s1));
        assert(pers_bytes(s2, n2).subrange(8, 16) =~= u64_le_bytes(s2));
        assert(pers_bytes(s1, n1).subrange(16, 20) =~= u32_le_bytes(n1));
        assert(pers_bytes(s2, n2).subrange(16, 20) =~= u32_le_bytes(n2));
        lemma_u64_le_bytes_inverse(s1);
        lemma_u64_le_bytes_inverse(s2);
        lemma_u32_le_bytes_injective(n1, n2);
        assert(false);
    }
}

} // verus!
