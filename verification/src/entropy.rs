//! The three entropy sources: the operating system's randomness interface,
//! a hardware random-word instruction, and CPU-timing jitter conditioned
//! through SHA3-256. The hardware instruction cannot be issued from here, so
//! its words reach this crate as plain arguments; the other two sources are
//! drawn on the spot. A failed source is never papered over: it surfaces as
//! `EntropyUnavailable`.

use vstd::prelude::*;

use crate::bits::{be_u64_of, push_u64_be, u64_from_le_bytes, vec_u8_to_u64, BitVector};
use crate::errors::RngError;

verus! {

/// Smallest estimated entropy-pool level that the platform probe accepts.
pub const MIN_ENTROPY_THRESHOLD: u64 = 200;

/// Ceiling on jitter-harvest iterations; hitting it means the system's
/// timing is too regular to yield bits.
pub const MAX_JITTER_TRIES: u32 = 32768;

#[verifier::external_type_specification]
#[verifier::external_body]
pub struct ExGetrandomError(getrandom::Error);

/// Relies on getrandom::getrandom: fills the buffer from the operating
/// system's cryptographic randomness interface, or reports the interface's
/// error. The bytes depend on the system's entropy; nothing is promised of
/// their values.
#[verifier::external_body]
fn os_random_8() -> (r: Result<Vec<u8>, getrandom::Error>)
    ensures
        r matches Ok(b) ==> b@.len() == 8,
{
    let mut buf = [0u8; 8];
    match getrandom::getrandom(&mut buf) {
        Ok(()) => Ok(buf.to_vec()),
        Err(e) => Err(e),
    }
}

/// One 64-bit word from the operating system's randomness interface, read
/// in native little-endian order. An interface failure is unrecoverable and
/// surfaces as `EntropyUnavailable`.
pub fn generate_u64_os() -> (r: Result<u64, RngError>)
    ensures
        r matches Err(e) ==> e == RngError::EntropyUnavailable,
{
    match os_random_8() {
        Ok(bytes) => Ok(u64_from_le_bytes(&bytes)),
        Err(_) => Err(RngError::EntropyUnavailable),
    }
}

/// Relies on std::time::Instant: the measured duration, in nanoseconds, of
/// two back-to-back monotonic clock reads, truncated to 64 bits. The value
/// depends on the machine's timing at the moment of the call; nothing is
/// promised of it.
#[verifier::external_body]
fn clock_read_delta() -> u64 {
    let start = std::time::Instant::now();
    let end = std::time::Instant::now();
    end.duration_since(start).as_nanos() as u64
}

/// Harvests 64 raw timing-comparison bits: each round measures two
/// back-to-back clock-read durations and, when they differ, records whether
/// the first was larger. Raw jitter has low true-entropy density, so this
/// output is never used directly; see `generate_u64_cpujitter`. If the
/// iteration ceiling is hit before 64 bits are collected, the system is
/// judged too idle or busy and `EntropyUnavailable` is returned.
pub fn generate_u64_cpujitter_raw() -> (r: Result<u64, RngError>)
    ensures
        r matches Err(e) ==> e == RngError::EntropyUnavailable,
{
    let mut bit_vector = BitVector::new();
    let mut loop_count: u32 = 0;

    loop
        invariant_except_break
            bit_vector@.len() < 64,
        invariant
            loop_count < MAX_JITTER_TRIES,
        ensures
            bit_vector@.len() == 64,
        decreases MAX_JITTER_TRIES - loop_count,
    {
        let time_diff1 = clock_read_delta();
        let time_diff2 = clock_read_delta();

        if time_diff1 != time_diff2 {
            bit_vector.add_bit(time_diff1 > time_diff2);
        }

        if bit_vector.is_full() {
            break;
        }

        loop_count = loop_count + 1;
        if loop_count >= MAX_JITTER_TRIES {
            return Err(RngError::EntropyUnavailable);
        }
    }

    Ok(bit_vector.to_u64())
}

/// The SHA3-256 digest of a byte sequence: a function of the input bytes
/// alone, the same in every process and on every machine.
pub uninterp spec fn sha3_256_bytes(data: Seq<u8>) -> Seq<u8>;

/// Relies on tiny_keccak's `Sha3::v256` with `update` and `finalize`: the
/// 32-byte SHA3-256 digest of the input, a function of the input alone.
#[verifier::external_body]
fn sha3_256(data: &Vec<u8>) -> (r: Vec<u8>)
    ensures
        r@ == sha3_256_bytes(data@),
        r@.len() == 32,
{
    let mut sha3 = tiny_keccak::Sha3::v256();
    tiny_keccak::Hasher::update(&mut sha3, data.as_slice());
    let mut out = [0u8; 32];
    tiny_keccak::Hasher::finalize(sha3, &mut out);
    out.to_vec()
}

/// Conditions 64 bytes of raw jitter into one 64-bit word: the first eight
/// bytes of the SHA3-256 digest, read in big-endian order.
pub fn condition_jitter(raw: &Vec<u8>) -> (r: u64)
    requires
        raw@.len() == 64,
    ensures
        r == be_u64_of(sha3_256_bytes(raw@).subrange(0, 8)),
{
    let digest = sha3_256(raw);
    let mut first8: Vec<u8> = Vec::new();
    let mut i: usize = 0;
    while i < 8
        invariant
            i <= 8,
            digest@.len() == 32,
            first8@ == digest@.subrange(0, i as int),
        decreases 8 - i,
    {
        proof {
            assert(digest@.subrange(0, i + 1) =~= digest@.subrange(0, i as int).push(
                digest@[i as int],
            ));
        }
        first8.push(digest[i]);
        i = i + 1;
    }
    match vec_u8_to_u64(&first8) {
        Some(v) => v,
        None => {
            proof {
                assert(false);
            }
            0
        },
    }
}

/// One 64-bit word of conditioned CPU-jitter entropy: eight raw 64-bit
/// harvests (512 raw bits) are concatenated big-endian and run through
/// SHA3-256, and the first eight digest bytes become the word. A harvest
/// failure aborts the draw; a successful word is always the conditioning of
/// some 64 harvested bytes, never a raw harvest handed out directly.
pub fn generate_u64_cpujitter() -> (r: Result<u64, RngError>)
    ensures
        r matches Ok(w) ==> exists|d: Seq<u8>|
            d.len() == 64 && w == be_u64_of(#[trigger] sha3_256_bytes(d).subrange(0, 8)),
        r matches Err(e) ==> e == RngError::EntropyUnavailable,
{
    let mut combined_data: Vec<u8> = Vec::new();
    let mut round: usize = 0;
    while round < 8
        invariant
            round <= 8,
            combined_data@.len() == 8 * round,
        decreases 8 - round,
    {
        match generate_u64_cpujitter_raw() {
            Ok(raw_value) => push_u64_be(&mut combined_data, raw_value),
            Err(e) => {
                return Err(e);
            },
        }
        round = round + 1;
    }
    Ok(condition_jitter(&combined_data))
}

/// ASCII whitespace, as it occurs around the number in the platform's
/// entropy-availability file.
pub open spec fn is_ws(b: u8) -> bool {
    b == 32 || (9 <= b && b <= 13)
}

/// An ASCII decimal digit.
pub open spec fn is_digit(b: u8) -> bool {
    48 <= b && b <= 57
}

/// The sequence with its leading whitespace removed.
pub open spec fn trim_front(s: Seq<u8>) -> Seq<u8>
    decreases s.len(),
{
    if s.len() > 0 && is_ws(s[0]) {
        trim_front(s.subrange(1, s.len() as int))
    } else {
        s
    }
}

/// The sequence with its trailing whitespace removed.
pub open spec fn trim_back(s: Seq<u8>) -> Seq<u8>
    decreases s.len(),
{
    if s.len() > 0 && is_ws(s.last()) {
        trim_back(s.drop_last())
    } else {
        s
    }
}

/// The sequence with whitespace removed from both ends.
pub open spec fn trimmed(s: Seq<u8>) -> Seq<u8> {
    trim_back(trim_front(s))
}

/// The integer spelled by a digit sequence, most significant digit first.
pub open spec fn digits_val(s: Seq<u8>) -> int
    decreases s.len(),
{
    if s.len() == 0 {
        0
    } else {
        digits_val(s.drop_last()) * 10 + (s.last() - 48)
    }
}

pub open spec fn all_digits(s: Seq<u8>) -> bool {
    forall|j: int| 0 <= j < s.len() ==> is_digit(s[j])
}

/// The number a bare digit sequence spells: at least one digit, all digits,
/// with a value that fits in 64 bits; anything else does not parse.
pub open spec fn parse_digits(body: Seq<u8>) -> Option<u64> {
    if body.len() > 0 && all_digits(body) && digits_val(body) <= u64::MAX {
        Some(digits_val(body) as u64)
    } else {
        None
    }
}

/// The unsigned decimal number a byte sequence spells: an optional leading
/// plus sign, then at least one digit, with a value that fits in 64 bits;
/// anything else does not parse.
pub open spec fn parse_u64(s: Seq<u8>) -> Option<u64> {
    if s.len() > 0 && s[0] == 43 {
        parse_digits(s.subrange(1, s.len() as int))
    } else {
        parse_digits(s)
    }
}

/// The entropy-pool level a probe reading reports: the number spelled by the
/// trimmed contents, and zero for anything that does not parse.
pub open spec fn entropy_pool_value(s: Seq<u8>) -> u64 {
    match parse_u64(trimmed(s)) {
        Some(v) => v,
        None => 0u64,
    }
}

/// Leading whitespace up to `lo` is exactly what `trim_front` removes.
proof fn lemma_trim_front_at(s: Seq<u8>, lo: int)
    requires
        0 <= lo <= s.len(),
        forall|j: int| 0 <= j < lo ==> is_ws(s[j]),
        lo == s.len() || !is_ws(s[lo]),
    ensures
        trim_front(s) == s.subrange(lo, s.len() as int),
    decreases lo,
{
    if lo == 0 {
        assert(s.subrange(0, s.len() as int) =~= s);
    } else {
        let s1 = s.subrange(1, s.len() as int);
        lemma_trim_front_at(s1, lo - 1);
        assert(s1.subrange(lo - 1, s1.len() as int) =~= s.subrange(lo, s.len() as int));
    }
}

/// Trailing whitespace from `hi` on is exactly what `trim_back` removes.
proof fn lemma_trim_back_at(s: Seq<u8>, hi: int)
    requires
        0 <= hi <= s.len(),
        forall|j: int| hi <= j < s.len() ==> is_ws(s[j]),
        hi == 0 || !is_ws(s[hi - 1]),
    ensures
        trim_back(s) == s.subrange(0, hi),
    decreases s.len() - hi,
{
    if hi == s.len() {
        assert(s.subrange(0, hi) =~= s);
    } else {
        lemma_trim_back_at(s.drop_last(), hi);
        assert(s.drop_last().subrange(0, hi) =~= s.subrange(0, hi));
    }
}

/// Appending digits never shrinks the spelled value.
proof fn lemma_digits_val_prefix(s: Seq<u8>, k: int)
    requires
        0 <= k <= s.len(),
        digits_val(s.subrange(0, k)) >= 0,
        forall|j: int| k <= j < s.len() ==> is_digit(s[j]),
    ensures
        digits_val(s) >= digits_val(s.subrange(0, k)),
    decreases s.len() - k,
{
    if k < s.len() {
        assert(s.drop_last().subrange(0, k) =~= s.subrange(0, k));
        lemma_digits_val_prefix(s.drop_last(), k);
        assert(is_digit(s.last()));
    } else {
        assert(s.subrange(0, k) =~= s);
    }
}

/// The verified decision behind the platform's entropy-pool probe: reads
/// the probe's raw file contents (when the platform offers them) and
/// reports the level they spell, exactly as the trimmed decimal number, and
/// zero for contents that do not parse.
pub fn parse_entropy_value(c: &Vec<u8>) -> (r: u64)
    ensures
        r == entropy_pool_value(c@),
{
    let n = c.len();
    let mut lo: usize = 0;
    while lo < n && (c[lo] == 32 || (9 <= c[lo] && c[lo] <= 13))
        invariant
            lo <= n,
            n == c@.len(),
            forall|j: int| 0 <= j < lo ==> is_ws(c@[j]),
        decreases n - lo,
    {
        lo = lo + 1;
    }
    let mut hi: usize = n;
    while hi > lo && (c[hi - 1] == 32 || (9 <= c[hi - 1] && c[hi - 1] <= 13))
        invariant
            lo <= hi <= n,
            n == c@.len(),
            forall|j: int| hi <= j < n ==> is_ws(c@[j]),
            forall|j: int| 0 <= j < lo ==> is_ws(c@[j]),
            lo == n || !is_ws(c@[lo as int]),
        decreases hi,
    {
        hi = hi - 1;
    }
    let ghost t = trimmed(c@);
    proof {
        lemma_trim_front_at(c@, lo as int);
        let f = c@.subrange(lo as int, n as int);
        lemma_trim_back_at(f, hi - lo);
        assert(f.subrange(0, hi - lo) =~= c@.subrange(lo as int, hi as int));
        assert(t == c@.subrange(lo as int, hi as int));
    }

    let start: usize = if lo < hi && c[lo] == 43 {
        lo + 1
    } else {
        lo
    };
    let ghost body = c@.subrange(start as int, hi as int);
    proof {
        if lo < hi && c@[lo as int] == 43 {
            assert(t.subrange(1, t.len() as int) =~= body);
        } else {
            assert(t =~= body);
        }
    }

    if start == hi {
        return 0;
    }

    let mut acc: u64 = 0;
    let mut i: usize = start;
    while i < hi
        invariant
            start <= i <= hi,
            hi <= n,
            n == c@.len(),
            body == c@.subrange(start as int, hi as int),
            parse_u64(trimmed(c@)) == parse_digits(body),
            start < hi,
            forall|j: int| start <= j < i ==> is_digit(c@[j]),
            acc == digits_val(body.subrange(0, i - start)),
        decreases hi - i,
    {
        let b = c[i];
        proof {
            assert(body.subrange(0, i + 1 - start).drop_last() =~= body.subrange(0, i - start));
            assert(body.subrange(0, i + 1 - start).last() == c@[i as int]);
        }
        if b < 48 || b > 57 {
            proof {
                assert(!is_digit(body[i - start]));
            }
            return 0;
        }
        let d = (b - 48) as u64;
        if acc > (u64::MAX - d) / 10 {
            proof {
                assert(10 * acc + d > u64::MAX) by (nonlinear_arith)
                    requires
                        acc > (u64::MAX - d) / 10,
                        d <= 9,
                ;
                assert(digits_val(body.subrange(0, i + 1 - start)) == acc * 10 + d);
                if all_digits(body) {
                    lemma_digits_val_prefix(body, i + 1 - start);
                    assert(digits_val(body) > u64::MAX);
                }
            }
            return 0;
        }
        acc = acc * 10 + d;
        i = i + 1;
    }
    proof {
        assert(body.subrange(0, hi - start) =~= body);
        assert(all_digits(body));
        assert(parse_u64(t) == Some(acc));
    }
    acc
}

/// Decides the platform's entropy-pool probe: the probe's file contents,
/// where the platform offers one, must spell a level of at least
/// `MIN_ENTROPY_THRESHOLD`; an unreadable probe or a level below the
/// threshold means entropy is unavailable. Platforms without the probe skip
/// this check altogether.
pub fn check_entropy_pool(contents: Option<Vec<u8>>) -> (r: Result<(), RngError>)
    ensures
        r matches Err(e) ==> e == RngError::EntropyUnavailable,
        contents matches Some(c) ==> (r is Ok <==> entropy_pool_value(c@)
            >= MIN_ENTROPY_THRESHOLD),
        contents is None ==> r is Err,
{
    match contents {
        None => Err(RngError::EntropyUnavailable),
        Some(c) => {
            let entropy_avail = parse_entropy_value(&c);
            if entropy_avail < MIN_ENTROPY_THRESHOLD {
                Err(RngError::EntropyUnavailable)
            } else {
                Ok(())
            }
        },
    }
}

} // verus!
