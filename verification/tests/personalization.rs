use randgen::errors::RngError;
use randgen::personalization::{generate_personalization_string, ClockGuard};

#[test]
fn issue_layout_is_tag_secs_nanos_padding() {
    let mut guard = ClockGuard::new();
    let p = guard.issue(0x0102030405060708, 0x0a0b0c0d).unwrap();
    assert_eq!(p.len(), 32);
    assert_eq!(&p[..8], b"kissa123");
    // Seconds, little-endian.
    assert_eq!(&p[8..16], &[8, 7, 6, 5, 4, 3, 2, 1]);
    // Nanoseconds, little-endian.
    assert_eq!(&p[16..20], &[0x0d, 0x0c, 0x0b, 0x0a]);
    // Zero padding.
    assert_eq!(&p[20..], &[0u8; 12]);
}

#[test]
fn issue_requires_strict_increase() {
    let mut guard = ClockGuard::new();
    assert!(guard.issue(5, 10).is_ok());
    // Equal pair: refused.
    assert_eq!(guard.issue(5, 10), Err(RngError::ClockRegression));
    // Nanoseconds went backward.
    assert_eq!(guard.issue(5, 9), Err(RngError::ClockRegression));
    // Seconds went backward.
    assert_eq!(guard.issue(4, 999_999_999), Err(RngError::ClockRegression));
    // Strictly larger nanoseconds in the same second: accepted.
    assert!(guard.issue(5, 11).is_ok());
    // A later second with smaller nanoseconds: accepted.
    assert!(guard.issue(6, 0).is_ok());
}

#[test]
fn issue_values_never_repeat_or_regress() {
    let mut guard = ClockGuard::new();
    let mut last = (0u64, 0u32);
    for (secs, nanos) in [(1, 0), (1, 1), (1, 500), (2, 0), (7, 123)] {
        let p = guard.issue(secs, nanos).unwrap();
        let pair = (secs, nanos);
        assert!(last < pair, "pairs must strictly increase");
        last = pair;
        // The pair can be read back from the issued bytes, so distinct
        // pairs give distinct personalization strings.
        let got_secs = u64::from_le_bytes(p[8..16].try_into().unwrap());
        let got_nanos = u32::from_le_bytes(p[16..20].try_into().unwrap());
        assert_eq!((got_secs, got_nanos), pair);
    }
}

#[test]
fn zero_pair_is_refused_on_fresh_guard() {
    // A clock reading at or before the epoch can never be issued.
    let mut guard = ClockGuard::new();
    assert_eq!(guard.issue(0, 0), Err(RngError::ClockRegression));
}

#[test]
fn wall_clock_personalization_has_layout() {
    let mut guard = ClockGuard::new();
    let p = generate_personalization_string(&mut guard).unwrap();
    assert_eq!(p.len(), 32);
    assert_eq!(&p[..8], b"kissa123");
    assert_eq!(&p[20..], &[0u8; 12]);
    let secs = u64::from_le_bytes(p[8..16].try_into().unwrap());
    // The wall clock stands well after the epoch.
    assert!(secs > 1_500_000_000);
}
