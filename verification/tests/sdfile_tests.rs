use kassigner::entropy::{EntropyError, EntropyPool};
use kassigner::sdfile::{
    build_filename_83, format_auto_name, generate_trng_nonce, hex_nibble, is_listed, key_fingerprint,
    list_files, next_auto_number, parse_descriptor, parse_hex_key, xprv_slot_fields, DirEntryInfo,
    HiddenRule,
};

#[test]
fn hex_nibble_values() {
    assert_eq!(hex_nibble(b'0'), 0);
    assert_eq!(hex_nibble(b'9'), 9);
    assert_eq!(hex_nibble(b'a'), 10);
    assert_eq!(hex_nibble(b'F'), 15);
    assert_eq!(hex_nibble(b'g'), 0xFF);
    assert_eq!(hex_nibble(b' '), 0xFF);
}

#[test]
fn filename_83_upper_cases_and_pads() {
    assert_eq!(&build_filename_83(b"my-tx", 5, b"KSP"), b"MY-TX   KSP");
    assert_eq!(&build_filename_83(b"abcdefghij", 10, b"TXT"), b"ABCDEFGHTXT");
    assert_eq!(&build_filename_83(b"", 0, b"KAS"), b"        KAS");
}

#[test]
fn auto_name_has_six_digits() {
    assert_eq!(&format_auto_name(b"TX", 7, b"KSP"), b"TX000007KSP");
    assert_eq!(&format_auto_name(b"SG", 123456, b"KSP"), b"SG123456KSP");
    assert_eq!(&format_auto_name(b"SG", 1234567, b"KSP"), b"SG234567KSP");
}

#[test]
fn next_auto_number_skips_past_largest() {
    let names: [[u8; 11]; 4] = [*b"TX000007KSP", *b"TX000003KSP", *b"README  TXT", *b"TX00A009KSP"];
    assert_eq!(next_auto_number(&names, b"TX", b"KSP"), 8);
    assert_eq!(next_auto_number(&names, b"SG", b"KSP"), 1);
    assert_eq!(next_auto_number(&[], b"TX", b"KSP"), 1);
}

#[test]
fn next_auto_name_is_fresh() {
    let names: [[u8; 11]; 2] = [*b"TX000001KSP", *b"TX000002KSP"];
    let n = next_auto_number(&names, b"TX", b"KSP");
    let fresh = format_auto_name(b"TX", n, b"KSP");
    assert!(!names.contains(&fresh));
    assert_eq!(&fresh, b"TX000003KSP");
}

fn entry(name: &[u8; 11], size: u32, is_dir: bool) -> DirEntryInfo {
    DirEntryInfo { name: *name, size, is_dir }
}

#[test]
fn listing_filters_hidden_empty_and_extensions() {
    let entries = [
        entry(b"WALLET  KAS", 120, false),
        entry(b".HIDDEN KAS", 120, false),
        entry(b"EMPTY   KAS", 0, false),
        entry(b"FOLDER     ", 0, true),
        entry(b"NOTES   TXT", 50, false),
        entry(b"_SKIP   KAS", 40, false),
        entry(b"BIG     KAS", 5000, false),
    ];
    let exts = [*b"KAS"];
    let names = list_files(&entries, &exts, HiddenRule::DotOrDeleted, Some(4096), 10);
    assert_eq!(names, vec![*b"WALLET  KAS", *b"_SKIP   KAS"]);
    let names = list_files(&entries, &exts, HiddenRule::DotDeletedOrUnderscore, None, 10);
    assert_eq!(names, vec![*b"WALLET  KAS", *b"BIG     KAS"]);
    let all = list_files(&entries, &[], HiddenRule::ShowAll, None, 2);
    assert_eq!(all, vec![*b"WALLET  KAS", *b".HIDDEN KAS"]);
    assert!(!is_listed(&entries[3], &[], HiddenRule::ShowAll, None));
}

#[test]
fn hex_key_parses_64_digits() {
    let text = b"00112233445566778899aabbccddeeff00112233445566778899AABBCCDDEEFF\n";
    let key = parse_hex_key(text).unwrap();
    assert_eq!(key[0], 0x00);
    assert_eq!(key[1], 0x11);
    assert_eq!(key[15], 0xff);
    assert_eq!(key[31], 0xff);
    let mut bad = *text;
    bad[10] = b'z';
    assert_eq!(parse_hex_key(&bad), None);
}

#[test]
fn fingerprint_is_sha256_prefix() {
    assert_eq!(key_fingerprint(&[0u8; 32]), [0x66, 0x68, 0x7a, 0xad]);
}

#[test]
fn xprv_slot_fields_pack_little_endian() {
    let mut raw = [0u8; 65];
    for (i, b) in raw.iter_mut().enumerate() {
        *b = i as u8;
    }
    let (idx, pp) = xprv_slot_fields(&raw);
    assert_eq!(idx[0], 0x0100);
    assert_eq!(idx[15], 0x1f1e);
    assert_eq!(idx[16], 0);
    assert_eq!(pp[0], 32);
    assert_eq!(pp[32], 64);
}

#[test]
fn nonce_refused_without_generator() {
    let mut pool = EntropyPool::new();
    assert_eq!(generate_trng_nonce(&mut pool), Err(EntropyError::NotInitialized));
    let mut seed = [0u8; 96];
    for (i, b) in seed.iter_mut().enumerate() {
        *b = i as u8;
    }
    assert_eq!(pool.initialize(&seed), Ok(()));
    let a = generate_trng_nonce(&mut pool).unwrap();
    let b = generate_trng_nonce(&mut pool).unwrap();
    assert_ne!(a, b);
}

fn field(prefix: &str) -> String {
    let mut s = String::from(prefix);
    while s.len() < 130 {
        s.push('a');
    }
    s
}

#[test]
fn descriptor_two_of_three() {
    let text = format!("multi_hd(2,{},{},{})\n", field("02"), field("03"), field("0211"));
    let (m, n, keys, chains) = parse_descriptor::<16>(text.as_bytes()).unwrap();
    assert_eq!(m, 2);
    assert_eq!(n, 3);
    assert_eq!(keys[0][0], 0x02);
    assert_eq!(keys[0][1], 0xaa);
    assert_eq!(keys[1][0], 0x03);
    assert_eq!(keys[2][1], 0x11);
    assert_eq!(chains[0], [0xaa; 32]);
    assert_eq!(keys[3], [0u8; 33]);
    assert_eq!(chains[3], [0u8; 32]);
}

#[test]
fn descriptor_rejections() {
    // Threshold above the participant count.
    let text = format!("multi_hd(3,{},{})", field("02"), field("03"));
    assert!(parse_descriptor::<16>(text.as_bytes()).is_none());
    // Not a compressed pubkey prefix.
    let text = format!("multi_hd(1,{})", field("04"));
    assert!(parse_descriptor::<16>(text.as_bytes()).is_none());
    // Non-hex digit.
    let text = format!("multi_hd(1,{})", field("02zz"));
    assert!(parse_descriptor::<16>(text.as_bytes()).is_none());
    // Wrong prefix.
    let text = format!("multi_xx(1,{})", field("02"));
    assert!(parse_descriptor::<16>(text.as_bytes()).is_none());
    // More participants than the caller can hold.
    let text = format!("multi_hd(1,{},{})", field("02"), field("03"));
    assert!(parse_descriptor::<1>(text.as_bytes()).is_none());
    // A trailing comma is accepted.
    let text = format!("multi_hd(1,{},)", field("02"));
    assert_eq!(parse_descriptor::<16>(text.as_bytes()).map(|r| (r.0, r.1)), Some((1, 1)));
}
