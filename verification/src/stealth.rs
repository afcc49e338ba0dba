//! Stealth-address scanning. A companion wallet sends candidate ephemeral
//! keys R (x-only, 32 bytes each) in a "STLH" request; the device answers,
//! for each R, the one-time public key P = B + t·G and the tweak t, where
//! B is the spend public key, S = v·R with the scan secret v, and
//! t = SHA-256("KasStealth" ‖ S.x ‖ 0u32). The curve arithmetic is done by
//! the `k256` crate.

use vstd::prelude::*;
use crate::hmac::{sha256, sha256_spec};
use crate::qrframe::{signed_qr_frame, signed_qr_frame_spec, qr_frag_len, qr_frag_size};

verus! {

/// Most candidate keys one request may carry.
pub const STEALTH_MAX_CANDIDATES: usize = 64;

/// The order of the secp256k1 group.
pub open spec fn secp256k1_order() -> nat {
    0xFFFFFFFFFFFFFFFFFFFFFFFFFFFFFFFEBAAEDCE6AF48A03BBFD25E8CD0364141nat
}

/// The value of a big-endian byte string.
pub open spec fn be_value(s: Seq<u8>) -> nat
    decreases s.len(),
{
    if s.len() == 0 { 0 } else { be_value(s.drop_last()) * 256 + s.last() as nat }
}

/// A valid secret key: a scalar from 1 to the group order minus one.
pub open spec fn valid_secret(s: Seq<u8>) -> bool {
    0 < be_value(s) && be_value(s) < secp256k1_order()
}

/// The x coordinate of the public key of a secret key, as `k256` computes it.
pub uninterp spec fn xonly_pub_spec(secret: Seq<u8>) -> Seq<u8>;

/// The x coordinate of v·R for the scan secret v and the even-y point R
/// with x coordinate `r`, or `None` when `r` is not on the curve.
pub uninterp spec fn ecdh_x_spec(secret: Seq<u8>, r: Seq<u8>) -> Option<Seq<u8>>;

/// The x coordinate of B + t·G for the even-y point B with x coordinate
/// `b` and the scalar `t`, or `None` when B is not a point, t is not below
/// the group order, or the sum is the point at infinity.
pub uninterp spec fn tweaked_x_spec(b: Seq<u8>, t: Seq<u8>) -> Option<Seq<u8>>;

/// `k256::elliptic_curve::ScalarPrimitive::from_slice`: a 32-byte string
/// is a scalar exactly when its big-endian value is below the group order.
#[verifier::external_body]
fn scalar_in_range(b: &[u8; 32]) -> (ok: bool)
    ensures
        ok == (be_value(b@) < secp256k1_order()),
{
    k256::elliptic_curve::ScalarPrimitive::<k256::Secp256k1>::from_slice(b).is_ok()
}

/// `k256::SecretKey::from_slice` and `public_key`, compressed: the x
/// coordinate of the public key. Claims that a key is refused exactly when it
/// is zero or not below the group order, and that the coordinate is the
/// named function of the key.
#[verifier::external_body]
fn xonly_public_key(secret: &[u8; 32]) -> (r: Option<[u8; 32]>)
    ensures
        r is Some == valid_secret(secret@),
        r matches Some(p) ==> p@ == xonly_pub_spec(secret@),
{
    match k256::SecretKey::from_slice(secret) {
        Ok(sk) => {
            let enc = k256::elliptic_curve::sec1::ToEncodedPoint::to_encoded_point(&sk.public_key(), true);
            let mut out = [0u8; 32];
            out.copy_from_slice(&enc.as_bytes()[1..33]);
            Some(out)
        },
        Err(_) => None,
    }
}

/// `k256::PublicKey::from_sec1_bytes` of 0x02 ‖ `r`, multiplied by the
/// secret scalar (`k256::SecretKey::from_slice`), compressed. Claims only
/// that the result is the named function of its arguments when the secret
/// is valid.
#[verifier::external_body]
fn ecdh_xonly(secret: &[u8; 32], r: &[u8; 32]) -> (s: Option<[u8; 32]>)
    requires
        valid_secret(secret@),
    ensures
        s matches Some(x) ==> ecdh_x_spec(secret@, r@) == Some(x@),
        s is None ==> ecdh_x_spec(secret@, r@) is None,
{
    let mut comp = [2u8; 33];
    comp[1..].copy_from_slice(r);
    let sk = k256::SecretKey::from_slice(secret).ok()?;
    let rp = k256::PublicKey::from_sec1_bytes(&comp).ok()?;
    let sp = (rp.to_projective() * *sk.to_nonzero_scalar()).to_affine();
    let enc = k256::elliptic_curve::sec1::ToEncodedPoint::to_encoded_point(&sp, true);
    let mut out = [0u8; 32];
    out.copy_from_slice(&enc.as_bytes()[1..33]);
    Some(out)
}

/// `k256::PublicKey::from_sec1_bytes` of 0x02 ‖ `b`, plus the generator
/// times `ScalarPrimitive::from_slice(t)`, checked by
/// `PublicKey::from_affine`, compressed. Claims only that the result is the
/// named function of its arguments.
#[verifier::external_body]
fn tweaked_xonly(b: &[u8; 32], t: &[u8; 32]) -> (p: Option<[u8; 32]>)
    ensures
        p matches Some(x) ==> tweaked_x_spec(b@, t@) == Some(x@),
        p is None ==> tweaked_x_spec(b@, t@) is None,
{
    let mut comp = [2u8; 33];
    comp[1..].copy_from_slice(b);
    let bp = k256::PublicKey::from_sec1_bytes(&comp).ok()?;
    let ts = k256::Scalar::from(k256::elliptic_curve::ScalarPrimitive::<k256::Secp256k1>::from_slice(t).ok()?);
    let sum = bp.to_projective() + k256::ProjectivePoint::GENERATOR * ts;
    let pk = k256::PublicKey::from_affine(sum.to_affine()).ok()?;
    let enc = k256::elliptic_curve::sec1::ToEncodedPoint::to_encoded_point(&pk, true);
    let mut out = [0u8; 32];
    out.copy_from_slice(&enc.as_bytes()[1..33]);
    Some(out)
}

/// Why a stealth request is refused.
#[derive(Debug, Clone, Copy, PartialEq, Eq, Structural)]
pub enum StealthError {
    /// Not a well-formed request: no candidates, more than 64, or fewer
    /// bytes than the candidates need.
    BadRequest,
    /// The scan or spend secret is not a valid secret key.
    BadKey,
    /// A one-time key came out as the point at infinity.
    BadPoint,
}

/// The number of candidates of a well-formed request ("STLH", a count from
/// 1 to 64, then the count's worth of 32-byte keys; more bytes may follow).
pub open spec fn stealth_count_spec(req: Seq<u8>) -> Option<nat> {
    if req.len() >= 5 && 1 <= req[4] <= STEALTH_MAX_CANDIDATES && req.len() >= 5 + 32 * (req[4] as nat) {
        Some(req[4] as nat)
    } else {
        None
    }
}

/// The message hashed into a tweak: "KasStealth", the shared x coordinate
/// and a zero counter.
pub open spec fn tweak_message(sx: Seq<u8>) -> Seq<u8> {
    seq![0x4bu8, 0x61, 0x73, 0x53, 0x74, 0x65, 0x61, 0x6c, 0x74, 0x68] + sx + seq![0u8, 0, 0, 0]
}

/// A tweak hash as a scalar: as it is when below the group order, else
/// shifted right by one byte.
pub open spec fn tweak_scalar(h: Seq<u8>) -> Seq<u8> {
    if be_value(h) < secp256k1_order() { h } else { seq![0u8] + h.take(31) }
}

/// The 64-byte answer for candidate `r`: the one-time key and the tweak
/// hash, or zeros for a candidate that is not a point; `None` if the
/// one-time key is the point at infinity.
pub open spec fn stealth_entry(v: Seq<u8>, spend_x: Seq<u8>, r: Seq<u8>) -> Option<Seq<u8>> {
    match ecdh_x_spec(v, r) {
        None => Some(Seq::new(64, |i: int| 0u8)),
        Some(sx) => {
            let h = sha256_spec(tweak_message(sx));
            match tweaked_x_spec(spend_x, tweak_scalar(h)) {
                Some(p) => Some(p + h),
                None => None,
            }
        },
    }
}

/// The answers for the first `k` candidates of `req`, or `None` if one of
/// them fails.
pub open spec fn stealth_entries(v: Seq<u8>, spend_x: Seq<u8>, req: Seq<u8>, k: nat) -> Option<Seq<u8>>
    decreases k,
{
    if k == 0 {
        Some(Seq::empty())
    } else {
        match stealth_entries(v, spend_x, req, (k - 1) as nat) {
            Some(prev) => match stealth_entry(v, spend_x, req.subrange(5 + 32 * (k - 1), 5 + 32 * (k as int))) {
                Some(e) => Some(prev + e),
                None => None,
            },
            None => None,
        }
    }
}

/// The answer to a stealth request: "STLR", the count, and 64 bytes per
/// candidate (see [`stealth_entry`]).
pub open spec fn stealth_response_spec(scan: Seq<u8>, spend: Seq<u8>, req: Seq<u8>) -> Result<Seq<u8>, StealthError> {
    match stealth_count_spec(req) {
        None => Err(StealthError::BadRequest),
        Some(n) => {
            if !valid_secret(scan) || !valid_secret(spend) {
                Err(StealthError::BadKey)
            } else {
                match stealth_entries(scan, xonly_pub_spec(spend), req, n) {
                    Some(body) => Ok(seq![0x53u8, 0x54, 0x4c, 0x52, n as u8] + body),
                    None => Err(StealthError::BadPoint),
                }
            }
        },
    }
}

proof fn lemma_entries_fail_onward(v: Seq<u8>, spend_x: Seq<u8>, req: Seq<u8>, k: nat, m: nat)
    requires
        k <= m,
        stealth_entries(v, spend_x, req, k) is None,
    ensures
        stealth_entries(v, spend_x, req, m) is None,
    decreases m - k,
{
    if k < m {
        lemma_entries_fail_onward(v, spend_x, req, k, (m - 1) as nat);
    }
}

/// The number of candidates of a request (see [`stealth_count_spec`]).
pub fn stealth_request_count(req: &[u8]) -> (n: Option<usize>)
    ensures
        match n {
            Some(c) => stealth_count_spec(req@) == Some(c as nat),
            None => stealth_count_spec(req@) is None,
        },
{
    if req.len() < 5 {
        return None;
    }
    let count = req[4] as usize;
    if count == 0 || count > STEALTH_MAX_CANDIDATES || req.len() < 5 + count * 32 {
        return None;
    }
    Some(count)
}

fn secret_nonzero(s: &[u8; 32]) -> (nz: bool)
    ensures
        nz == (be_value(s@) > 0),
{
    let mut i: usize = 0;
    while i < 32
        invariant
            i <= 32,
            be_value(s@.take(i as int)) == 0,
        decreases 32 - i,
    {
        proof {
            assert(s@.take(i as int + 1).drop_last() =~= s@.take(i as int));
        }
        if s[i] != 0 {
            proof {
                lemma_be_value_positive(s@, i as int);
            }
            return true;
        }
        i = i + 1;
    }
    proof {
        assert(s@.take(32) =~= s@);
    }
    false
}

proof fn lemma_be_value_prefix_le(s: Seq<u8>, k: int)
    requires
        0 <= k <= s.len(),
    ensures
        be_value(s.take(k)) <= be_value(s),
    decreases s.len(),
{
    if k < s.len() {
        assert(s.drop_last().take(k) =~= s.take(k));
        lemma_be_value_prefix_le(s.drop_last(), k);
    } else {
        assert(s.take(k) =~= s);
    }
}

proof fn lemma_be_value_positive(s: Seq<u8>, i: int)
    requires
        0 <= i < s.len(),
        s[i] != 0,
    ensures
        be_value(s) > 0,
{
    let p = s.take(i + 1);
    assert(p.drop_last() =~= s.take(i));
    assert(p.last() == s[i]);
    assert(be_value(p) >= s[i] as nat);
    lemma_be_value_prefix_le(s, i + 1);
}

/// The tweak message for a shared x coordinate.
fn tweak_message_bytes(sx: &[u8; 32]) -> (m: Vec<u8>)
    ensures
        m@ == tweak_message(sx@),
{
    let mut m: Vec<u8> = Vec::new();
    m.push(0x4b); m.push(0x61); m.push(0x73); m.push(0x53); m.push(0x74);
    m.push(0x65); m.push(0x61); m.push(0x6c); m.push(0x74); m.push(0x68);
    assert(m@ =~= seq![0x4bu8, 0x61, 0x73, 0x53, 0x74, 0x65, 0x61, 0x6c, 0x74, 0x68] + sx@.take(0));
    let mut i: usize = 0;
    while i < 32
        invariant
            i <= 32,
            m@ == seq![0x4bu8, 0x61, 0x73, 0x53, 0x74, 0x65, 0x61, 0x6c, 0x74, 0x68] + sx@.take(i as int),
        decreases 32 - i,
    {
        m.push(sx[i]);
        proof {
            assert(sx@.take(i as int + 1) =~= sx@.take(i as int).push(sx@[i as int]));
        }
        i = i + 1;
    }
    m.push(0); m.push(0); m.push(0); m.push(0);
    proof {
        assert(sx@.take(32) =~= sx@);
        assert(m@ =~= tweak_message(sx@));
    }
    m
}

/// Answer a stealth request with the scan secret `scan` and the spend
/// secret `spend` (see [`stealth_response_spec`]).
pub fn stealth_scan(scan: &[u8; 32], spend: &[u8; 32], req: &[u8]) -> (r: Result<Vec<u8>, StealthError>)
    ensures
        match r {
            Ok(resp) => stealth_response_spec(scan@, spend@, req@) == Ok::<Seq<u8>, StealthError>(resp@),
            Err(e) => stealth_response_spec(scan@, spend@, req@) == Err::<Seq<u8>, StealthError>(e),
        },
{
    let count = match stealth_request_count(req) {
        Some(c) => c,
        None => return Err(StealthError::BadRequest),
    };
    if !(scalar_in_range(scan) && secret_nonzero(scan)) {
        return Err(StealthError::BadKey);
    }
    let spend_x = match xonly_public_key(spend) {
        Some(p) => p,
        None => return Err(StealthError::BadKey),
    };
    let mut resp: Vec<u8> = Vec::new();
    resp.push(0x53); resp.push(0x54); resp.push(0x4c); resp.push(0x52);
    resp.push(count as u8);
    let ghost head = seq![0x53u8, 0x54, 0x4c, 0x52, count as u8];
    assert(resp@ =~= head + Seq::<u8>::empty());
    let mut i: usize = 0;
    while i < count
        invariant
            i <= count <= STEALTH_MAX_CANDIDATES,
            req@.len() >= 5 + 32 * count,
            valid_secret(scan@),
            valid_secret(spend@),
            stealth_count_spec(req@) == Some(count as nat),
            spend_x@ == xonly_pub_spec(spend@),
            stealth_entries(scan@, spend_x@, req@, i as nat) matches Some(body) && resp@ == head + body,
        decreases count - i,
    {
        let off = 5 + 32 * i;
        let n = req.len();
        let mut r = [0u8; 32];
        let mut j: usize = 0;
        while j < 32
            invariant
                j <= 32,
                n == req@.len(),
                off + 32 <= n,
                forall|q: int| 0 <= q < j ==> r@[q] == req@[off + q],
            decreases 32 - j,
        {
            r[j] = req[off + j];
            j = j + 1;
        }
        proof {
            assert(r@ =~= req@.subrange(5 + 32 * i, 5 + 32 * (i + 1)));
        }
        let ghost prev = resp@;
        match ecdh_xonly(scan, &r) {
            None => {
                let mut z: usize = 0;
                while z < 64
                    invariant
                        z <= 64,
                        resp@ == prev + Seq::new(z as nat, |q: int| 0u8),
                    decreases 64 - z,
                {
                    resp.push(0);
                    proof {
                        assert(Seq::new((z + 1) as nat, |q: int| 0u8) =~= Seq::new(z as nat, |q: int| 0u8).push(0u8));
                    }
                    z = z + 1;
                }
            },
            Some(sx) => {
                let msg = tweak_message_bytes(&sx);
                let h = sha256(msg.as_slice());
                let t = if scalar_in_range(&h) {
                    h
                } else {
                    let mut adj = [0u8; 32];
                    let mut q: usize = 0;
                    while q < 31
                        invariant
                            q <= 31,
                            adj@[0] == 0,
                            forall|k: int| 0 <= k < q ==> adj@[k + 1] == h@[k],
                        decreases 31 - q,
                    {
                        adj[q + 1] = h[q];
                        q = q + 1;
                    }
                    proof {
                        assert(adj@ =~= seq![0u8] + h@.take(31));
                    }
                    adj
                };
                match tweaked_xonly(&spend_x, &t) {
                    Some(p) => {
                        let mut k: usize = 0;
                        while k < 32
                            invariant
                                k <= 32,
                                resp@ == prev + p@.take(k as int),
                            decreases 32 - k,
                        {
                            resp.push(p[k]);
                            proof {
                                assert(p@.take(k as int + 1) =~= p@.take(k as int).push(p@[k as int]));
                            }
                            k = k + 1;
                        }
                        let mut k2: usize = 0;
                        while k2 < 32
                            invariant
                                k2 <= 32,
                                resp@ == prev + p@ + h@.take(k2 as int),
                            decreases 32 - k2,
                        {
                            resp.push(h[k2]);
                            proof {
                                assert(p@.take(32) =~= p@);
                                assert(h@.take(k2 as int + 1) =~= h@.take(k2 as int).push(h@[k2 as int]));
                            }
                            k2 = k2 + 1;
                        }
                        proof {
                            assert(h@.take(32) =~= h@);
                        }
                    },
                    None => {
                        proof {
                            assert(stealth_entry(scan@, spend_x@, r@) is None);
                            lemma_entries_fail_onward(scan@, spend_x@, req@, (i + 1) as nat, count as nat);
                        }
                        return Err(StealthError::BadPoint);
                    },
                }
            },
        }
        i = i + 1;
    }
    Ok(resp)
}

// ─── Showing the answer ────────────────────────────────────────────

/// Longest answer shown as one static QR code.
pub const STLR_SINGLE_MAX: usize = 134;

/// Most answer bytes per frame when the answer is cycled in frames.
pub const STLR_FRAME_BYTES: usize = 100;

/// Frames for an answer of `len` bytes: `None` when it fits one static QR
/// code, else enough frames of at most 100 bytes.
pub open spec fn stlr_frame_count_spec(len: nat) -> Option<nat> {
    if len <= STLR_SINGLE_MAX { None } else { Some((len + 99) / 100) }
}

/// An answer longer than one static QR code is cut into the fewest frames
/// of at most 100 bytes that hold it: `n` frames hold more than `n - 1` full
/// frames would. Shorter answers are shown as one static code.
pub proof fn lemma_stlr_frames_cover(len: nat)
    ensures
        stlr_frame_count_spec(len) is None <==> len <= STLR_SINGLE_MAX,
        stlr_frame_count_spec(len) matches Some(n) ==> n >= 2 && (n - 1) * 100 < len && len <= n * 100,
{
    if len > STLR_SINGLE_MAX {
        let n = (len + 99) / 100;
        assert((n - 1) * 100 < len && len <= n * 100 && n >= 2) by (nonlinear_arith)
            requires n == (len + 99) / 100, len > 134;
    }
}

/// Frames for an answer of `len` bytes (see [`stlr_frame_count_spec`]).
pub fn stlr_frame_count(len: usize) -> (n: Option<u8>)
    requires
        len <= 5 + 64 * STEALTH_MAX_CANDIDATES,
    ensures
        match n {
            Some(k) => stlr_frame_count_spec(len as nat) == Some(k as nat),
            None => stlr_frame_count_spec(len as nat) is None,
        },
{
    if len <= STLR_SINGLE_MAX {
        None
    } else {
        Some(((len + STLR_FRAME_BYTES - 1) / STLR_FRAME_BYTES) as u8)
    }
}

/// Frame `k` of a cycled answer: the frame header and at most 100 bytes.
pub fn stlr_frame(resp: &[u8], k: u8, n: u8) -> (f: Option<Vec<u8>>)
    requires
        STLR_SINGLE_MAX < resp@.len() <= 5 + 64 * STEALTH_MAX_CANDIDATES,
        stlr_frame_count_spec(resp@.len()) == Some(n as nat),
        k < n,
    ensures
        f is None <==> qr_frag_len(resp@.len(), n as nat, k as nat) == 0,
        f matches Some(v) ==> v@ == signed_qr_frame_spec(resp@, k as nat, n as nat),
{
    let len = resp.len();
    proof {
        let nn = n as int;
        let l = len as int;
        assert(nn * 100 >= l) by (nonlinear_arith)
            requires nn == (l + 99) / 100, l >= 0;
        assert((l + nn - 1) / nn <= 100) by (nonlinear_arith)
            requires nn * 100 >= l, nn >= 1;
        assert(qr_frag_size(l as nat, nn as nat) <= 100);
        assert(resp@.take(l) =~= resp@);
    }
    signed_qr_frame(resp, len, k, n)
}

} // verus!
