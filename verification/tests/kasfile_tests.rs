use kassigner::kasfile::{decrypt_kas3_file, encrypt_kas3_file, Kas3Error};

const KEY: [u8; 32] = [7u8; 32];
const NONCE: [u8; 12] = [1u8; 12];

#[test]
fn kas3_roundtrip() {
    let file = encrypt_kas3_file(&KEY, &NONCE, b"hello").unwrap();
    assert_eq!(file.len(), 5 + 34);
    assert_eq!(&file[..6], &[b'K', b'A', b'S', 0x03, 5, 0]);
    assert_eq!(&file[6..18], &NONCE);
    assert_ne!(&file[18..23], b"hello");
    assert_eq!(decrypt_kas3_file(&KEY, &file), Ok(b"hello".to_vec()));
}

#[test]
fn kas3_wrong_key_is_wrong_password() {
    let file = encrypt_kas3_file(&KEY, &NONCE, b"secret seed").unwrap();
    assert_eq!(decrypt_kas3_file(&[8u8; 32], &file), Err(Kas3Error::WrongPassword));
    let mut tampered = file.clone();
    tampered[20] ^= 1;
    assert_eq!(decrypt_kas3_file(&KEY, &tampered), Err(Kas3Error::WrongPassword));
}

#[test]
fn kas3_bad_shape_is_invalid_file() {
    let file = encrypt_kas3_file(&KEY, &NONCE, b"hello").unwrap();
    let mut bad = file.clone();
    bad[0] = b'X';
    assert_eq!(decrypt_kas3_file(&KEY, &bad), Err(Kas3Error::InvalidFile));
    assert_eq!(decrypt_kas3_file(&KEY, &file[..30]), Err(Kas3Error::InvalidFile));
    let mut long = file.clone();
    long[4] = 0xff;
    assert_eq!(decrypt_kas3_file(&KEY, &long), Err(Kas3Error::InvalidFile));
}

#[test]
fn kas3_size_limit() {
    assert!(encrypt_kas3_file(&KEY, &NONCE, &[0u8; 990]).is_some());
    assert!(encrypt_kas3_file(&KEY, &NONCE, &[0u8; 991]).is_none());
    let big = encrypt_kas3_file(&KEY, &NONCE, &[3u8; 990]).unwrap();
    assert_eq!(big.len(), 1024);
    assert_eq!(decrypt_kas3_file(&KEY, &big), Ok(vec![3u8; 990]));
}

#[test]
fn kas3_empty_payload_does_not_reopen() {
    let file = encrypt_kas3_file(&KEY, &NONCE, b"").unwrap();
    assert_eq!(file.len(), 34);
    assert_eq!(decrypt_kas3_file(&KEY, &file), Err(Kas3Error::InvalidFile));
}
