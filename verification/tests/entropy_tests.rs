use kassigner::entropy::{hardware_health_check, run_self_tests, EntropyError, EntropyPool, HmacDrbg};
use kassigner::hmac::hmac_sha512;

#[test]
fn self_tests_all_pass() {
    assert_eq!(run_self_tests(), (6, 6));
}

#[test]
fn hmac_sha512_rfc4231_case_2() {
    let mac = hmac_sha512(b"Jefe", b"what do ya want for nothing?");
    let expected: [u8; 64] = [
        0x16, 0x4b, 0x7a, 0x7b, 0xfc, 0xf8, 0x19, 0xe2, 0xe3, 0x95, 0xfb, 0xe7, 0x3b, 0x56, 0xe0, 0xa3,
        0x87, 0xbd, 0x64, 0x22, 0x2e, 0x83, 0x1f, 0xd6, 0x10, 0x27, 0x0c, 0xd7, 0xea, 0x25, 0x05, 0x54,
        0x97, 0x58, 0xbf, 0x75, 0xc0, 0x5a, 0x99, 0x4a, 0x6d, 0x03, 0x4f, 0x65, 0xf8, 0xf0, 0xe6, 0xfd,
        0xca, 0xea, 0xb1, 0xa3, 0x4d, 0x4a, 0x6b, 0x4b, 0x63, 0x6e, 0x07, 0x0a, 0x38, 0xbc, 0xe7, 0x37,
    ];
    assert_eq!(mac, expected);
}

const EXPECTED_FIRST: [u8; 64] = [
    0x4c, 0xdf, 0xc1, 0x62, 0xb7, 0x4c, 0xc2, 0xd7, 0xb6, 0x23, 0x6a, 0xff, 0x3c, 0x8c, 0x62, 0x68,
    0xed, 0xf8, 0xf8, 0xe2, 0x83, 0xdb, 0xda, 0x4b, 0x01, 0x4a, 0x50, 0x39, 0x03, 0x29, 0x16, 0x63,
    0x49, 0x6f, 0x86, 0xce, 0xd5, 0xb9, 0x1a, 0x7e, 0xd6, 0x1b, 0xbd, 0x24, 0x3d, 0x56, 0x8d, 0x19,
    0x49, 0xe3, 0x52, 0x04, 0x02, 0x6a, 0x9b, 0x36, 0x56, 0xb7, 0x18, 0x25, 0xf9, 0x8f, 0x05, 0x96,
];

fn counting_seed() -> [u8; 96] {
    let mut seed = [0u8; 96];
    for (i, b) in seed.iter_mut().enumerate() {
        *b = i as u8;
    }
    seed
}

#[test]
fn drbg_first_block_matches_known_vector() {
    let seed = counting_seed();
    let mut drbg = HmacDrbg::new(&seed);
    let mut out = [0u8; 64];
    assert!(drbg.generate(&mut out).is_ok());
    assert_eq!(out, EXPECTED_FIRST);
    let mut second = [0u8; 64];
    assert!(drbg.generate(&mut second).is_ok());
    assert_ne!(second, out);
}

#[test]
fn health_check_accepts_counting_seed() {
    assert!(hardware_health_check(&counting_seed()));
}

#[test]
fn health_check_rejects_constant_seed() {
    assert!(!hardware_health_check(&[0x55u8; 96]));
}

#[test]
fn health_check_rejects_repeated_blocks() {
    let seed = counting_seed();
    let mut repeated = seed;
    repeated[32..64].copy_from_slice(&seed[..32]);
    assert!(!hardware_health_check(&repeated));
    let mut tail = seed;
    tail[64..96].copy_from_slice(&seed[32..64]);
    assert!(!hardware_health_check(&tail));
}

#[test]
fn health_check_rejects_three_equal_words() {
    let mut seed = counting_seed();
    for w in 0..3 {
        seed[40 + 4 * w..44 + 4 * w].copy_from_slice(&[9, 8, 7, 6]);
    }
    assert!(!hardware_health_check(&seed));
    // Two equal words in a row are tolerated.
    let mut two = counting_seed();
    for w in 0..2 {
        two[40 + 4 * w..44 + 4 * w].copy_from_slice(&[9, 8, 7, 6]);
    }
    assert!(hardware_health_check(&two));
}

#[test]
fn pool_refuses_before_initialization_and_clears_output() {
    let mut pool = EntropyPool::new();
    assert!(!pool.is_initialized());
    let mut out = [0xAAu8; 16];
    assert_eq!(pool.fill(&mut out), Err(EntropyError::NotInitialized));
    assert_eq!(out, [0u8; 16]);
}

#[test]
fn pool_rejects_unhealthy_seed() {
    let mut pool = EntropyPool::new();
    assert_eq!(pool.initialize(&[0u8; 96]), Err(EntropyError::HardwareHealthTestFailed));
    assert!(!pool.is_initialized());
}

#[test]
fn pool_initializes_once_and_serves_generator_output() {
    let mut pool = EntropyPool::new();
    assert_eq!(pool.initialize(&counting_seed()), Ok(()));
    assert!(pool.is_initialized());
    assert_eq!(pool.initialize(&counting_seed()), Err(EntropyError::AlreadyInitialized));
    let mut out = [0u8; 64];
    assert_eq!(pool.fill(&mut out), Ok(()));
    assert_eq!(out, EXPECTED_FIRST);
}
