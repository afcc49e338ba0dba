use k256::elliptic_curve::sec1::ToEncodedPoint;
use k256::elliptic_curve::ScalarPrimitive;
use k256::{ProjectivePoint, PublicKey, Scalar, Secp256k1, SecretKey};
use kassigner::stealth::{stealth_request_count, stealth_scan, stlr_frame, stlr_frame_count, StealthError};
use sha2::{Digest, Sha256};

fn xonly(p: &ProjectivePoint) -> [u8; 32] {
    let enc = p.to_affine().to_encoded_point(true);
    let mut out = [0u8; 32];
    out.copy_from_slice(&enc.as_bytes()[1..33]);
    out
}

fn scalar(b: &[u8; 32]) -> Scalar {
    Scalar::from(ScalarPrimitive::<Secp256k1>::from_slice(b).unwrap())
}

fn request(candidates: &[[u8; 32]]) -> Vec<u8> {
    let mut r = b"STLH".to_vec();
    r.push(candidates.len() as u8);
    for c in candidates {
        r.extend_from_slice(c);
    }
    r
}

/// The answer for candidate `r`, computed step by step with the curve crate.
fn expected_entry(scan: &[u8; 32], spend: &[u8; 32], r: &[u8; 32]) -> Vec<u8> {
    let mut comp = [2u8; 33];
    comp[1..].copy_from_slice(r);
    let rp = PublicKey::from_sec1_bytes(&comp).unwrap();
    let s = rp.to_projective() * scalar(scan);
    let mut h = Sha256::new();
    h.update(b"KasStealth");
    h.update(xonly(&s));
    h.update(0u32.to_be_bytes());
    let tweak: [u8; 32] = h.finalize().into();
    let spend_x = xonly(&(ProjectivePoint::GENERATOR * scalar(spend)));
    let mut bcomp = [2u8; 33];
    bcomp[1..].copy_from_slice(&spend_x);
    let b = PublicKey::from_sec1_bytes(&bcomp).unwrap();
    let p = b.to_projective() + ProjectivePoint::GENERATOR * scalar(&tweak);
    let mut out = xonly(&p).to_vec();
    out.extend_from_slice(&tweak);
    out
}

#[test]
fn request_shapes() {
    assert_eq!(stealth_request_count(&request(&[[1u8; 32]])), Some(1));
    assert_eq!(stealth_request_count(&request(&[])), None);
    let mut short = request(&[[1u8; 32], [2u8; 32]]);
    short.truncate(60);
    assert_eq!(stealth_request_count(&short), None);
    let mut too_many = b"STLH".to_vec();
    too_many.push(65);
    too_many.extend_from_slice(&vec![0u8; 65 * 32]);
    assert_eq!(stealth_request_count(&too_many), None);
    assert_eq!(stealth_request_count(b"STL"), None);
}

#[test]
fn stealth_answer_matches_the_curve_arithmetic() {
    let scan = [0x11u8; 32];
    let spend = [0x22u8; 32];
    let g_x = xonly(&ProjectivePoint::GENERATOR);
    let other_x = xonly(&(ProjectivePoint::GENERATOR * scalar(&[0x33u8; 32])));
    let resp = stealth_scan(&scan, &spend, &request(&[g_x, other_x])).unwrap();
    assert_eq!(resp.len(), 5 + 2 * 64);
    assert_eq!(&resp[..5], b"STLR\x02");
    assert_eq!(resp[5..69].to_vec(), expected_entry(&scan, &spend, &g_x));
    assert_eq!(resp[69..].to_vec(), expected_entry(&scan, &spend, &other_x));
    // the one-time key differs from the spend key itself
    assert_ne!(&resp[5..37], &xonly(&(ProjectivePoint::GENERATOR * scalar(&spend)))[..]);
}

#[test]
fn candidates_off_the_curve_answer_zeros() {
    let scan = [0x11u8; 32];
    let spend = [0x22u8; 32];
    let resp = stealth_scan(&scan, &spend, &request(&[[0xFFu8; 32]])).unwrap();
    assert_eq!(resp.len(), 69);
    assert!(resp[5..].iter().all(|&b| b == 0));
}

#[test]
fn stealth_refusals() {
    let g_x = xonly(&ProjectivePoint::GENERATOR);
    assert_eq!(stealth_scan(&[1u8; 32], &[2u8; 32], &request(&[])), Err(StealthError::BadRequest));
    assert_eq!(stealth_scan(&[0u8; 32], &[2u8; 32], &request(&[g_x])), Err(StealthError::BadKey));
    assert_eq!(stealth_scan(&[1u8; 32], &[0xFFu8; 32], &request(&[g_x])), Err(StealthError::BadKey));
    let _ = SecretKey::from_slice(&[1u8; 32]).unwrap();
}

#[test]
fn long_answers_are_cycled_in_frames() {
    assert_eq!(stlr_frame_count(69), None);
    assert_eq!(stlr_frame_count(134), None);
    assert_eq!(stlr_frame_count(135), Some(2));
    assert_eq!(stlr_frame_count(261), Some(3));
    let resp: Vec<u8> = (0..261u32).map(|i| i as u8).collect();
    let f = stlr_frame(&resp, 0, 3).unwrap();
    assert_eq!(&f[..3], &[0u8, 3, 87]);
    assert_eq!(f.len(), 90);
    assert_eq!(&f[3..], &resp[..87]);
    let last = stlr_frame(&resp, 2, 3).unwrap();
    assert_eq!(&last[3..], &resp[174..]);
}
