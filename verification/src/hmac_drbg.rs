//! An HMAC-based deterministic random bit generator in the style of the
//! NIST SP 800-90A HMAC_DRBG, with two deliberate simplifications that are
//! kept as they are: instantiation derives the chaining value in a single
//! HMAC pass, and the post-generation step refreshes only the chaining value,
//! never the key. There is no reseed path.

use vstd::prelude::*;

use crate::bits::append_bytes;
use crate::errors::RngError;
use crate::wipe::wipe_bytes;

verus! {

/// Output ceiling of one generator instance; there is no reseed path, so
/// asking for more once the ceiling is reached is refused.
pub const MAX_RESEED_INTERVAL: u32 = 1000000;

/// The HMAC-SHA-256 tag of `msg` under `key`. The tag is a function of the
/// key and the message alone, the same in every process and on every machine.
pub uninterp spec fn hmac_sha256_bytes(key: Seq<u8>, msg: Seq<u8>) -> Seq<u8>;

/// Relies on ring's `hmac::Key::new` and one-shot `hmac::sign` with the
/// `HMAC_SHA256` algorithm: the tag depends on the key and message bytes
/// alone and is 32 bytes long. The length bounds keep the digest input below
/// the SHA-256 message limit, on which ring would panic.
#[verifier::external_body]
fn hmac_sha256(key: &Vec<u8>, msg: &Vec<u8>) -> (r: Vec<u8>)
    requires
        key@.len() < 0x1000000000000000,
        msg@.len() < 0x1000000000000000,
    ensures
        r@ == hmac_sha256_bytes(key@, msg@),
        r@.len() == 32,
{
    let k = ring::hmac::Key::new(ring::hmac::HMAC_SHA256, key.as_slice());
    let tag = ring::hmac::sign(&k, msg.as_slice());
    tag.as_ref().to_vec()
}

/// Mathematical model of one generator instance.
pub ghost struct DrbgModel {
    /// The 32-byte chaining value.
    pub v: Seq<u8>,
    /// The HMAC key; here always the raw seed material.
    pub key: Seq<u8>,
    /// Bytes produced since instantiation, plus one.
    pub counter: int,
}

/// The chaining value at instantiation, before the first HMAC pass: 32 bytes
/// of 0x01.
pub open spec fn drbg_init_v() -> Seq<u8> {
    Seq::new(32, |i: int| 1u8)
}

/// The chaining value right after instantiation from seed and
/// personalization string.
pub open spec fn drbg_instantiate_v(seed: Seq<u8>, pers: Seq<u8>) -> Seq<u8> {
    hmac_sha256_bytes(seed, drbg_init_v() + pers + seed)
}

/// The chaining value after `c` HMAC passes from `v0`.
pub open spec fn drbg_v_iter(key: Seq<u8>, v0: Seq<u8>, c: nat) -> Seq<u8>
    decreases c,
{
    if c == 0 {
        v0
    } else {
        hmac_sha256_bytes(key, drbg_v_iter(key, v0, (c - 1) as nat))
    }
}

/// How many 32-byte chaining steps a request for `n` bytes consumes.
pub open spec fn drbg_chunks(n: nat) -> nat {
    (n + 31) / 32
}

/// Byte `i` of the generator's output stream: the stream is the
/// concatenation of the successive chaining values.
pub open spec fn drbg_byte(key: Seq<u8>, v0: Seq<u8>, i: int) -> u8 {
    drbg_v_iter(key, v0, (i / 32 + 1) as nat)[i % 32]
}

/// The first `n` bytes of the generator's output stream from state
/// `(key, v0)`.
pub open spec fn drbg_stream(key: Seq<u8>, v0: Seq<u8>, n: nat) -> Seq<u8> {
    Seq::new(n, |i: int| drbg_byte(key, v0, i))
}

/// The chaining value after a request for `n` bytes, including the one
/// post-generation pass that follows the output loop.
pub open spec fn drbg_v_after(key: Seq<u8>, v0: Seq<u8>, n: nat) -> Seq<u8> {
    hmac_sha256_bytes(key, drbg_v_iter(key, v0, drbg_chunks(n)))
}

/// The first `n` output bytes of a fresh instance made from `seed` and
/// `pers`.
pub open spec fn drbg_output(seed: Seq<u8>, pers: Seq<u8>, n: nat) -> Seq<u8> {
    drbg_stream(seed, drbg_instantiate_v(seed, pers), n)
}

/// One deterministic random bit generator instance. Its state is owned by
/// exactly one caller and can be wiped when the instance is done.
pub struct HmacDrbg {
    v: Vec<u8>,
    key: Vec<u8>,
    reseed_counter: u32,
}

impl View for HmacDrbg {
    type V = DrbgModel;

    closed spec fn view(&self) -> DrbgModel {
        DrbgModel { v: self.v@, key: self.key@, counter: self.reseed_counter as int }
    }
}

impl HmacDrbg {
    /// A well-formed instance: 32-byte chaining value, a key short enough to
    /// digest, and a counter that never wrapped.
    pub open spec fn wf(&self) -> bool {
        &&& self@.v.len() == 32
        &&& self@.key.len() < 0x1000000000000000
        &&& 1 <= self@.counter <= u32::MAX
    }

    /// Instantiates from seed material and a personalization string:
    /// the key is the seed, the chaining value is one HMAC pass over
    /// 0x01-bytes ‖ personalization ‖ seed, and the counter starts at 1.
    pub fn new(seed: &Vec<u8>, personalization_string: &Vec<u8>) -> (r: Self)
        requires
            seed@.len() + personalization_string@.len() < 0x100000000000000,
        ensures
            r@.key == seed@,
            r@.v == drbg_instantiate_v(seed@, personalization_string@),
            r@.counter == 1,
            r.wf(),
    {
        let mut key: Vec<u8> = Vec::new();
        append_bytes(&mut key, seed);

        let mut msg: Vec<u8> = Vec::new();
        let mut i: usize = 0;
        while i < 32
            invariant
                i <= 32,
                msg@.len() == i,
                forall|j: int| 0 <= j < i ==> msg@[j] == 1u8,
            decreases 32 - i,
        {
            msg.push(1u8);
            i = i + 1;
        }
        proof {
            assert(msg@ =~= drbg_init_v());
        }
        append_bytes(&mut msg, personalization_string);
        append_bytes(&mut msg, seed);

        let v = hmac_sha256(&key, &msg);
        HmacDrbg { v, key, reseed_counter: 1 }
    }

    /// Produces exactly `requested_bytes` pseudorandom bytes, or refuses with
    /// `ReseedLimitExceeded` once the instance's output ceiling is reached,
    /// leaving the state untouched. On success the output is exactly the
    /// modelled stream of the starting state, the chaining value advances by
    /// one pass per 32 output bytes plus a final pass, and the counter grows
    /// by the number of bytes produced.
    pub fn generate_bytes(&mut self, requested_bytes: usize) -> (r: Result<Vec<u8>, RngError>)
        requires
            old(self).wf(),
            requested_bytes <= u32::MAX - MAX_RESEED_INTERVAL,
        ensures
            final(self).wf(),
            final(self)@.key == old(self)@.key,
            old(self)@.counter > MAX_RESEED_INTERVAL ==> r == Err::<Vec<u8>, RngError>(
                RngError::ReseedLimitExceeded,
            ) && final(self)@ == old(self)@,
            old(self)@.counter <= MAX_RESEED_INTERVAL ==> (r matches Ok(out)
                && out@ == drbg_stream(old(self)@.key, old(self)@.v, requested_bytes as nat)
                && out@.len() == requested_bytes && final(self)@.v == drbg_v_after(
                old(self)@.key,
                old(self)@.v,
                requested_bytes as nat,
            ) && final(self)@.counter == old(self)@.counter + requested_bytes),
    {
        if self.reseed_counter > MAX_RESEED_INTERVAL {
            return Err(RngError::ReseedLimitExceeded);
        }

        let ghost key0 = self@.key;
        let ghost v0 = self@.v;
        let ghost n = requested_bytes as nat;

        let mut random_bytes: Vec<u8> = Vec::new();

        while random_bytes.len() < requested_bytes
            invariant
                self@.key == key0,
                self@.counter == old(self)@.counter,
                self.wf(),
                n == requested_bytes,
                requested_bytes <= u32::MAX - MAX_RESEED_INTERVAL,
                random_bytes@.len() <= requested_bytes,
                random_bytes@.len() % 32 == 0 || random_bytes@.len() == requested_bytes,
                self@.v == drbg_v_iter(key0, v0, drbg_chunks(random_bytes@.len() as nat)),
                random_bytes@ == drbg_stream(key0, v0, n).take(random_bytes@.len() as int),
            decreases requested_bytes - random_bytes@.len(),
        {
            let m0 = random_bytes.len();
            proof {
                lemma_chunks_exact(m0 as nat);
            }
            let v1 = hmac_sha256(&self.key, &self.v);
            self.v = v1;

            let bytes_to_take = if requested_bytes - m0 < 32 {
                requested_bytes - m0
            } else {
                32
            };

            let mut j: usize = 0;
            while j < bytes_to_take
                invariant
                    self@.key == key0,
                    self@.counter == old(self)@.counter,
                    self@.v.len() == 32,
                    key0.len() < 0x1000000000000000,
                    m0 % 32 == 0,
                    1 <= bytes_to_take <= 32,
                    m0 + bytes_to_take <= requested_bytes,
                    n == requested_bytes,
                    j <= bytes_to_take,
                    self@.v == drbg_v_iter(key0, v0, (m0 as nat / 32 + 1) as nat),
                    random_bytes@.len() == m0 + j,
                    random_bytes@ == drbg_stream(key0, v0, n).take((m0 + j) as int),
                decreases bytes_to_take - j,
            {
                proof {
                    lemma_div_mod_32(m0 as nat, j as nat);
                    assert(drbg_stream(key0, v0, n).take((m0 + j + 1) as int) =~= drbg_stream(
                        key0,
                        v0,
                        n,
                    ).take((m0 + j) as int).push(drbg_byte(key0, v0, (m0 + j) as int)));
                }
                let b = self.v[j];
                random_bytes.push(b);
                j = j + 1;
            }
            proof {
                lemma_chunks_step(m0 as nat, bytes_to_take as nat);
            }
        }

        proof {
            assert(drbg_stream(key0, v0, n).take(n as int) =~= drbg_stream(key0, v0, n));
        }
        let v2 = hmac_sha256(&self.key, &self.v);
        self.v = v2;
        self.reseed_counter = self.reseed_counter + (requested_bytes as u32);
        Ok(random_bytes)
    }

    /// Overwrites the instance's key and chaining value before it is
    /// abandoned; the instance is unusable afterwards.
    pub fn wipe(&mut self)
        ensures
            final(self)@.key.len() == 0,
            final(self)@.v.len() == 0,
    {
        wipe_bytes(&mut self.key);
        wipe_bytes(&mut self.v);
    }
}

/// For a request length that is a multiple of 32, the chunk count is exact.
proof fn lemma_chunks_exact(m: nat)
    requires
        m % 32 == 0,
    ensures
        drbg_chunks(m) == m / 32,
{
    assert((m + 31) / 32 == m / 32) by (nonlinear_arith)
        requires
            m % 32 == 0,
    ;
}

/// Taking between 1 and 32 further bytes consumes exactly one more chunk.
proof fn lemma_chunks_step(m: nat, r: nat)
    requires
        m % 32 == 0,
        1 <= r <= 32,
    ensures
        drbg_chunks(m + r) == m / 32 + 1,
{
    assert((m + r + 31) / 32 == m / 32 + 1) by (nonlinear_arith)
        requires
            m % 32 == 0,
            1 <= r <= 32,
    ;
}

/// Position `m + j` of the stream falls in chunk `m / 32` at offset `j`.
proof fn lemma_div_mod_32(m: nat, j: nat)
    requires
        m % 32 == 0,
        j < 32,
    ensures
        (m + j) / 32 == m / 32,
        (m + j) % 32 == j,
{
    assert((m + j) / 32 == m / 32 && (m + j) % 32 == j) by (nonlinear_arith)
        requires
            m % 32 == 0,
            j < 32,
    ;
}

/// DRBG determinism: the modelled output stream and successor state are
/// functions of the state alone, and `new` pins the starting state to the
/// (seed, personalization) pair, so two instances with identical pairs and
/// identical call sequences produce bit-identical output.
pub proof fn lemma_drbg_deterministic(a: DrbgModel, b: DrbgModel, n: nat)
    requires
        a == b,
    ensures
        drbg_stream(a.key, a.v, n) == drbg_stream(b.key, b.v, n),
        drbg_v_after(a.key, a.v, n) == drbg_v_after(b.key, b.v, n),
{
}

/// Reseed ceiling: after an instance has produced at least `MAX_RESEED_INTERVAL`
/// cumulative output bytes, its counter exceeds the ceiling, so by the
/// contract of `generate_bytes` the next request is refused with
/// `ReseedLimitExceeded`.
pub proof fn lemma_reseed_ceiling(counter: int, produced: nat)
    requires
        counter == 1 + produced,
        produced >= MAX_RESEED_INTERVAL,
    ensures
        counter > MAX_RESEED_INTERVAL,
{
}

} // verus!
