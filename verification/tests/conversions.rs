use randgen::bits::{append_bytes, push_u64_be, u64_from_le_bytes, u64_to_bytes, vec_u8_to_u64,
    BitVector};

#[test]
fn u64_to_bytes_is_big_endian() {
    let bytes = u64_to_bytes(0x0102030405060708);
    assert_eq!(bytes, [1, 2, 3, 4, 5, 6, 7, 8]);
    assert_eq!(u64_to_bytes(0), [0; 8]);
    assert_eq!(u64_to_bytes(u64::MAX), [0xff; 8]);
    assert_eq!(u64_to_bytes(1), [0, 0, 0, 0, 0, 0, 0, 1]);
}

#[test]
fn vec_u8_to_u64_reads_big_endian() {
    let bytes = vec![0xde, 0xad, 0xbe, 0xef, 0x01, 0x02, 0x03, 0x04];
    assert_eq!(vec_u8_to_u64(&bytes), Some(0xdeadbeef01020304));
}

#[test]
fn vec_u8_to_u64_refuses_wrong_length() {
    assert_eq!(vec_u8_to_u64(&vec![]), None);
    assert_eq!(vec_u8_to_u64(&vec![1, 2, 3]), None);
    assert_eq!(vec_u8_to_u64(&vec![0; 9]), None);
}

#[test]
fn u64_bytes_round_trip() {
    for v in [0u64, 1, 0x8000000000000000, u64::MAX, 0x0123456789abcdef] {
        let bytes = u64_to_bytes(v).to_vec();
        assert_eq!(vec_u8_to_u64(&bytes), Some(v));
    }
}

#[test]
fn u64_from_le_bytes_reads_little_endian() {
    let bytes = vec![0x08, 0x07, 0x06, 0x05, 0x04, 0x03, 0x02, 0x01];
    assert_eq!(u64_from_le_bytes(&bytes), 0x0102030405060708);
}

#[test]
fn push_u64_be_appends_big_endian() {
    let mut buf = vec![0xaa];
    push_u64_be(&mut buf, 0x0102030405060708);
    assert_eq!(buf, vec![0xaa, 1, 2, 3, 4, 5, 6, 7, 8]);
}

#[test]
fn append_bytes_concatenates() {
    let mut buf = vec![1, 2];
    append_bytes(&mut buf, &vec![3, 4, 5]);
    assert_eq!(buf, vec![1, 2, 3, 4, 5]);
}

#[test]
fn bit_vector_assembles_lsb_first() {
    let mut bv = BitVector::new();
    assert!(!bv.is_full());
    // bits 0 and 2 set: 0b101 = 5
    bv.add_bit(true);
    bv.add_bit(false);
    bv.add_bit(true);
    assert_eq!(bv.to_u64(), 5);
}

#[test]
fn bit_vector_fills_at_64() {
    let mut bv = BitVector::new();
    for _ in 0..64 {
        assert!(!bv.is_full());
        bv.add_bit(true);
    }
    assert!(bv.is_full());
    assert_eq!(bv.to_u64(), u64::MAX);
}

#[test]
fn bit_vector_empty_is_zero() {
    let bv = BitVector::new();
    assert_eq!(bv.to_u64(), 0);
}
