//! The combined generator: one 64-bit draw seeds a fresh generator instance
//! from all three entropy sources and a unique personalization string, and
//! reads the instance's first eight output bytes. The hardware source's
//! instruction cannot be issued from this crate, so its eight words come in
//! as arguments; the caller draws them right before the call.

use vstd::prelude::*;

use crate::bits::{be_u64_of, push_u64_be, u64_be_bytes, vec_u8_to_u64};
use crate::entropy::{generate_u64_cpujitter, generate_u64_os};
use crate::errors::RngError;
use crate::hmac_drbg::{drbg_output, HmacDrbg};
use crate::personalization::{generate_personalization_string, pair_lt, pers_bytes, ClockGuard};
use crate::wipe::wipe_bytes;

verus! {

/// Well-formed seed material for the given hardware words: 192 bytes, eight
/// 24-byte rounds, with the round's hardware word standing big-endian at
/// bytes 8..16 of the round.
pub open spec fn seed_layout(s: Seq<u8>, hw: Seq<u64>) -> bool {
    &&& s.len() == 192
    &&& forall|i: int|
        0 <= i < 8 ==> #[trigger] s.subrange(24 * i + 8, 24 * i + 16) == u64_be_bytes(hw[i])
}

/// Builds 192 bytes of seed material for one generator instantiation: eight
/// rounds, each appending one word from the OS source, one hardware word,
/// and one conditioned jitter word, all big-endian. A source failure aborts
/// the whole combination, wiping what was gathered. On success the hardware
/// words stand at bytes 8..16 of each 24-byte round.
pub fn combine_seed(hw_words: &Vec<u64>) -> (r: Result<Vec<u8>, RngError>)
    requires
        hw_words@.len() == 8,
    ensures
        r matches Ok(s) ==> seed_layout(s@, hw_words@),
        r matches Err(e) ==> e == RngError::EntropyUnavailable,
{
    let mut seed: Vec<u8> = Vec::new();
    let mut round: usize = 0;
    while round < 8
        invariant
            hw_words@.len() == 8,
            round <= 8,
            seed@.len() == 24 * round,
            forall|i: int|
                0 <= i < round ==> #[trigger] seed@.subrange(24 * i + 8, 24 * i + 16)
                    == u64_be_bytes(hw_words@[i]),
        decreases 8 - round,
    {
        let ghost prev = seed@;
        let os_word = match generate_u64_os() {
            Ok(w) => w,
            Err(e) => {
                wipe_bytes(&mut seed);
                return Err(e);
            },
        };
        push_u64_be(&mut seed, os_word);
        push_u64_be(&mut seed, hw_words[round]);
        let jitter_word = match generate_u64_cpujitter() {
            Ok(w) => w,
            Err(e) => {
                wipe_bytes(&mut seed);
                return Err(e);
            },
        };
        push_u64_be(&mut seed, jitter_word);
        round = round + 1;
        proof {
            assert forall|i: int| 0 <= i < round implies #[trigger] seed@.subrange(
                24 * i + 8,
                24 * i + 16,
            ) == u64_be_bytes(hw_words@[i]) by {
                if i < round - 1 {
                    assert(seed@.subrange(24 * i + 8, 24 * i + 16) =~= prev.subrange(
                        24 * i + 8,
                        24 * i + 16,
                    ));
                } else {
                    assert(seed@.subrange(24 * i + 8, 24 * i + 16) =~= u64_be_bytes(
                        hw_words@[i],
                    ));
                }
            }
        }
    }
    Ok(seed)
}

/// The deterministic heart of one draw: instantiates a fresh generator from
/// the given seed and personalization string, reads eight bytes, wipes the
/// instance, and returns the bytes as one big-endian word. The result is
/// pinned to the modelled generator output, so identical inputs always give
/// the identical word.
pub fn drbg_generate_u64(seed: &Vec<u8>, personalization_string: &Vec<u8>) -> (r: u64)
    requires
        seed@.len() + personalization_string@.len() < 0x100000000000000,
    ensures
        r == be_u64_of(drbg_output(seed@, personalization_string@, 8)),
{
    let mut drbg = HmacDrbg::new(seed, personalization_string);
    let random_bytes = match drbg.generate_bytes(8) {
        Ok(out) => out,
        Err(_) => {
            proof {
                assert(false);
            }
            Vec::new()
        },
    };
    drbg.wipe();
    match vec_u8_to_u64(&random_bytes) {
        Some(v) => v,
        None => {
            proof {
                assert(false);
            }
            0
        },
    }
}

/// One 64-bit word from the combined construction: 192 bytes of fresh seed
/// material from all three sources, a strictly increasing personalization
/// string under the given guard, a fresh generator instance, eight output
/// bytes. The seed material and the personalization string are wiped before
/// returning, on the success path and on every error path. On success the
/// guard's pair has strictly increased, and the word is exactly the
/// generator's output for some well-laid-out seed and the personalization
/// string of the guard's new pair; on failure the guard is unchanged and
/// the error says which stage refused.
pub fn generate_u64(guard: &mut ClockGuard, hw_words: &Vec<u64>) -> (r: Result<u64, RngError>)
    requires
        hw_words@.len() == 8,
    ensures
        r matches Ok(v) ==> pair_lt(old(guard)@, final(guard)@) && (exists|s: Seq<u8>|
            seed_layout(s, hw_words@) && v == be_u64_of(
                #[trigger] drbg_output(
                    s,
                    pers_bytes(final(guard)@.0, final(guard)@.1),
                    8,
                ),
            )),
        r matches Err(e) ==> (e == RngError::EntropyUnavailable || e == RngError::ClockRegression)
            && final(guard)@ == old(guard)@,
{
    let mut seed = match combine_seed(hw_words) {
        Ok(s) => s,
        Err(e) => {
            return Err(e);
        },
    };

    let mut personalization_string = match generate_personalization_string(guard) {
        Ok(p) => p,
        Err(e) => {
            wipe_bytes(&mut seed);
            return Err(e);
        },
    };

    let random_value = drbg_generate_u64(&seed, &personalization_string);
    proof {
        assert(seed_layout(seed@, hw_words@) && random_value == be_u64_of(
            drbg_output(seed@, pers_bytes(guard@.0, guard@.1), 8),
        ));
    }

    wipe_bytes(&mut personalization_string);
    wipe_bytes(&mut seed);

    Ok(random_value)
}

} // verus!
