use randgen::errors::RngError;
use randgen::hmac_drbg::HmacDrbg;

fn seed_a() -> Vec<u8> {
    (0u8..=191).collect()
}

fn pers_a() -> Vec<u8> {
    vec![7u8; 32]
}

fn pers_b() -> Vec<u8> {
    vec![8u8; 32]
}

#[test]
fn drbg_identical_inputs_identical_output() {
    let mut d1 = HmacDrbg::new(&seed_a(), &pers_a());
    let mut d2 = HmacDrbg::new(&seed_a(), &pers_a());
    for len in [1usize, 8, 31, 32, 33, 64, 100] {
        let o1 = d1.generate_bytes(len).unwrap();
        let o2 = d2.generate_bytes(len).unwrap();
        assert_eq!(o1, o2);
        assert_eq!(o1.len(), len);
    }
}

#[test]
fn drbg_different_personalization_differs() {
    // Statistical distinctness: with the same seed but different
    // personalization strings, the first 32 output bytes must not match.
    let seed = seed_a();
    for (p1, p2) in [(pers_a(), pers_b()), (vec![0u8; 32], vec![1u8; 32])] {
        let mut d1 = HmacDrbg::new(&seed, &p1);
        let mut d2 = HmacDrbg::new(&seed, &p2);
        let o1 = d1.generate_bytes(32).unwrap();
        let o2 = d2.generate_bytes(32).unwrap();
        assert_ne!(o1, o2);
    }
}

#[test]
fn drbg_matches_direct_hmac_construction() {
    // Recomputes the construction directly with ring's multi-part HMAC
    // context: key from the seed, V starts as 32 bytes of 0x01, one
    // instantiation pass over V || personalization || seed, then one pass
    // per 32 output bytes.
    let seed = seed_a();
    let pers = pers_a();

    let key = ring::hmac::Key::new(ring::hmac::HMAC_SHA256, &seed);
    let mut v = [0x01u8; 32];
    let mut ctx = ring::hmac::Context::with_key(&key);
    ctx.update(&v);
    ctx.update(&pers);
    ctx.update(&seed);
    v.copy_from_slice(ctx.sign().as_ref());

    let mut expected = Vec::new();
    for _ in 0..2 {
        let mut ctx = ring::hmac::Context::with_key(&key);
        ctx.update(&v);
        v.copy_from_slice(ctx.sign().as_ref());
        expected.extend_from_slice(&v);
    }
    expected.truncate(48);

    let mut drbg = HmacDrbg::new(&seed, &pers);
    let out = drbg.generate_bytes(48).unwrap();
    assert_eq!(out, expected);
}

#[test]
fn drbg_zero_length_request() {
    let mut d1 = HmacDrbg::new(&seed_a(), &pers_a());
    let out = d1.generate_bytes(0).unwrap();
    assert!(out.is_empty());
    // The post-generation pass still advances the state, so the next output
    // differs from a fresh instance's first output.
    let next = d1.generate_bytes(32).unwrap();
    let mut fresh = HmacDrbg::new(&seed_a(), &pers_a());
    let first = fresh.generate_bytes(32).unwrap();
    assert_ne!(next, first);
}

#[test]
fn drbg_reseed_ceiling_is_fatal() {
    // Once cumulative output reaches 1,000,000 bytes, the next request is
    // refused with ReseedLimitExceeded.
    let mut drbg = HmacDrbg::new(&seed_a(), &pers_a());
    for _ in 0..10 {
        let out = drbg.generate_bytes(100_000).unwrap();
        assert_eq!(out.len(), 100_000);
    }
    assert_eq!(drbg.generate_bytes(1), Err(RngError::ReseedLimitExceeded));
    // And it stays refused.
    assert_eq!(drbg.generate_bytes(0), Err(RngError::ReseedLimitExceeded));
}

#[test]
fn drbg_just_below_ceiling_still_generates() {
    let mut drbg = HmacDrbg::new(&seed_a(), &pers_a());
    let out = drbg.generate_bytes(999_999).unwrap();
    assert_eq!(out.len(), 999_999);
    // Counter is now exactly 1,000,000: one more request is still served.
    assert!(drbg.generate_bytes(1).is_ok());
    // Counter is now 1,000,001: the ceiling has been crossed.
    assert_eq!(drbg.generate_bytes(1), Err(RngError::ReseedLimitExceeded));
}

#[test]
fn drbg_wipe_clears_state() {
    let mut drbg = HmacDrbg::new(&seed_a(), &pers_a());
    let _ = drbg.generate_bytes(8).unwrap();
    drbg.wipe();
}
