use randgen::errors::RngError;
use randgen::personalization::ClockGuard;
use randgen::random::{combine_seed, drbg_generate_u64, generate_u64};
use randgen::sampler::{bits_per_element, num_elements, unbiased_index};

#[test]
fn combine_seed_places_hardware_words() {
    let hw: Vec<u64> = (1u64..=8).map(|i| i * 0x0101010101010101).collect();
    let seed = combine_seed(&hw).unwrap();
    assert_eq!(seed.len(), 192);
    for i in 0..8 {
        let off = 24 * i + 8;
        let got = u64::from_be_bytes(seed[off..off + 8].try_into().unwrap());
        assert_eq!(got, hw[i]);
    }
}

#[test]
fn drbg_generate_u64_is_deterministic() {
    let seed = vec![0x5au8; 192];
    let pers = vec![0xc3u8; 32];
    let a = drbg_generate_u64(&seed, &pers);
    let b = drbg_generate_u64(&seed, &pers);
    assert_eq!(a, b);
    // A different personalization string changes the word.
    let pers2 = vec![0xc4u8; 32];
    assert_ne!(drbg_generate_u64(&seed, &pers2), a);
}

#[test]
fn generate_u64_draws_and_advances_guard() {
    let mut guard = ClockGuard::new();
    let hw = vec![0xdeadbeefu64; 8];
    let a = generate_u64(&mut guard, &hw);
    match a {
        Ok(_) => {}
        Err(e) => assert_eq!(e, RngError::EntropyUnavailable),
    }
    if let (Ok(x), Ok(y)) = (generate_u64(&mut guard, &hw), generate_u64(&mut guard, &hw)) {
        // Fresh seed material and personalization each draw: two equal
        // words would be beyond coincidence.
        assert_ne!(x, y);
    }
}

#[test]
fn alphabet_64_strength_256_gives_43_elements() {
    // End to end: a 64-element alphabet at 256 bits of strength needs
    // 6 bits per element and 43 elements.
    let count = 64u64;
    let bits = 256u32;
    let bpe = bits_per_element(count).unwrap();
    assert_eq!(bpe, 6);
    let n = num_elements(bits, bpe);
    assert_eq!(n, 43);

    // One generated password: 43 symbols joined by the delimiter.
    let alphabet: Vec<char> = ('A'..='Z')
        .chain('a'..='z')
        .chain('0'..='9')
        .chain(['+', '/'])
        .collect();
    assert_eq!(alphabet.len(), 64);

    let mut guard = ClockGuard::new();
    let hw = vec![1u64; 8];
    let mut symbols: Vec<String> = Vec::new();
    while symbols.len() < n as usize {
        let word = match generate_u64(&mut guard, &hw) {
            Ok(w) => w,
            Err(RngError::EntropyUnavailable) => return, // machine too regular for jitter
            Err(e) => panic!("unexpected error {:?}", e),
        };
        if let Some(idx) = unbiased_index(word, count) {
            symbols.push(alphabet[idx as usize].to_string());
        }
    }
    let password = symbols.join("-");
    assert_eq!(password.chars().filter(|c| *c != '-').count(), 43);
    assert_eq!(password.split('-').count(), 43);
}
