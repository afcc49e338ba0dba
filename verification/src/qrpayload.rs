//! Recognising what a decoded QR code carries, and decoding the small
//! payloads that need no further cryptography.

use vstd::prelude::*;
use crate::sdfile::{hex_nibble, hex_decode, all_hex, is_hex_digit};
use crate::signing::{hex_lower, lemma_hex_dump_roundtrip};

verus! {

/// What a scanned QR payload is, in the order the scanner tests for them.
#[derive(Clone, Copy, Debug, PartialEq, Eq, Structural)]
pub enum QrPayloadKind {
    /// `kaspa:` or `KASPA:` address
    KaspaAddress,
    /// KSPT transaction
    Kspt,
    /// Kaspa-standard PSKB bundle or single PSKT
    Pskt,
    /// Standard SeedQR: 48 or 96 decimal digits
    SeedQr,
    /// CompactSeedQR: 16 or 32 raw entropy bytes
    CompactSeedQr,
    /// Stealth scan request (STLH)
    StealthRequest,
    /// Firmware update (KSFU, 104 bytes)
    FirmwareUpdate,
    /// Account kpub, base58 text or the 79-byte compact form
    Kpub,
    /// Covenant backup in raw binary (COVB / COVI)
    CovenantRaw,
    /// Covenant backup hex-encoded
    CovenantHex,
    /// Anything else
    Unknown,
}

/// `d` starts with the bytes `p`.
pub open spec fn starts_with(d: Seq<u8>, p: Seq<u8>) -> bool {
    d.len() >= p.len() && d.take(p.len() as int) == p
}

/// Every byte of `d` is an ASCII decimal digit.
pub open spec fn all_ascii_digits(d: Seq<u8>) -> bool {
    forall|i: int| 0 <= i < d.len() ==> 0x30 <= #[trigger] d[i] <= 0x39
}

/// The classification of a scanned payload.
pub open spec fn qr_payload_kind(d: Seq<u8>) -> QrPayloadKind {
    if starts_with(d, seq![0x6bu8, 0x61, 0x73, 0x70, 0x61, 0x3a]) || starts_with(d, seq![0x4bu8, 0x41, 0x53, 0x50, 0x41, 0x3a]) {
        QrPayloadKind::KaspaAddress
    } else if starts_with(d, seq![0x4bu8, 0x53, 0x50, 0x54]) {
        QrPayloadKind::Kspt
    } else if starts_with(d, seq![0x50u8, 0x53, 0x4b, 0x42]) || starts_with(d, seq![0x50u8, 0x53, 0x4b, 0x54]) {
        QrPayloadKind::Pskt
    } else if (d.len() == 48 || d.len() == 96) && all_ascii_digits(d) {
        QrPayloadKind::SeedQr
    } else if d.len() == 16 || d.len() == 32 {
        QrPayloadKind::CompactSeedQr
    } else if d.len() >= 37 && starts_with(d, seq![0x53u8, 0x54, 0x4c, 0x48]) {
        QrPayloadKind::StealthRequest
    } else if d.len() == 104 && starts_with(d, seq![0x4bu8, 0x53, 0x46, 0x55]) {
        QrPayloadKind::FirmwareUpdate
    } else if starts_with(d, seq![0x6bu8, 0x70, 0x75, 0x62]) || (d.len() == 79 && d[0] == 0x01u8) {
        QrPayloadKind::Kpub
    } else if d.len() >= 5 && d[0] == 0x43u8 && d[1] == 0x4fu8 && d[2] == 0x56u8 && (d[3] == 0x42u8 || d[3] == 0x49u8) {
        QrPayloadKind::CovenantRaw
    } else if d.len() >= 10 && d.len() <= 1024 && starts_with(d, seq![0x34u8, 0x33, 0x34, 0x66, 0x35, 0x36, 0x34])
        && (d[7] == 0x32u8 || d[7] == 0x39u8) {
        QrPayloadKind::CovenantHex
    } else {
        QrPayloadKind::Unknown
    }
}

/// `d` starts with the bytes of `p`.
fn has_prefix(d: &[u8], p: &[u8]) -> (b: bool)
    ensures
        b == starts_with(d@, p@),
{
    if d.len() < p.len() {
        return false;
    }
    let mut i: usize = 0;
    while i < p.len()
        invariant
            d@.len() >= p@.len(),
            i <= p@.len(),
            forall|t: int| 0 <= t < i ==> d@[t] == p@[t],
        decreases p@.len() - i,
    {
        if d[i] != p[i] {
            assert(d@.take(p@.len() as int)[i as int] != p@[i as int]);
            return false;
        }
        i = i + 1;
    }
    assert(d@.take(p@.len() as int) =~= p@);
    true
}

/// Classify a scanned payload (routing of the QR scanner).
pub fn classify_qr_payload(data: &[u8]) -> (k: QrPayloadKind)
    ensures
        k == qr_payload_kind(data@),
{
    let kaspa: [u8; 6] = [0x6b, 0x61, 0x73, 0x70, 0x61, 0x3a];
    let kaspa_up: [u8; 6] = [0x4b, 0x41, 0x53, 0x50, 0x41, 0x3a];
    let kspt: [u8; 4] = [0x4b, 0x53, 0x50, 0x54];
    let pskb: [u8; 4] = [0x50, 0x53, 0x4b, 0x42];
    let pskt: [u8; 4] = [0x50, 0x53, 0x4b, 0x54];
    let stlh: [u8; 4] = [0x53, 0x54, 0x4c, 0x48];
    let ksfu: [u8; 4] = [0x4b, 0x53, 0x46, 0x55];
    let kpub: [u8; 4] = [0x6b, 0x70, 0x75, 0x62];
    let covhex: [u8; 7] = [0x34, 0x33, 0x34, 0x66, 0x35, 0x36, 0x34];
    assert(kaspa@ =~= seq![0x6bu8, 0x61, 0x73, 0x70, 0x61, 0x3a]);
    assert(kaspa_up@ =~= seq![0x4bu8, 0x41, 0x53, 0x50, 0x41, 0x3a]);
    assert(kspt@ =~= seq![0x4bu8, 0x53, 0x50, 0x54]);
    assert(pskb@ =~= seq![0x50u8, 0x53, 0x4b, 0x42]);
    assert(pskt@ =~= seq![0x50u8, 0x53, 0x4b, 0x54]);
    assert(stlh@ =~= seq![0x53u8, 0x54, 0x4c, 0x48]);
    assert(ksfu@ =~= seq![0x4bu8, 0x53, 0x46, 0x55]);
    assert(kpub@ =~= seq![0x6bu8, 0x70, 0x75, 0x62]);
    assert(covhex@ =~= seq![0x34u8, 0x33, 0x34, 0x66, 0x35, 0x36, 0x34]);
    let len = data.len();
    if has_prefix(data, kaspa.as_slice()) || has_prefix(data, kaspa_up.as_slice()) {
        QrPayloadKind::KaspaAddress
    } else if has_prefix(data, kspt.as_slice()) {
        QrPayloadKind::Kspt
    } else if has_prefix(data, pskb.as_slice()) || has_prefix(data, pskt.as_slice()) {
        QrPayloadKind::Pskt
    } else if (len == 48 || len == 96) && all_digits(data) {
        QrPayloadKind::SeedQr
    } else if len == 16 || len == 32 {
        QrPayloadKind::CompactSeedQr
    } else if len >= 37 && has_prefix(data, stlh.as_slice()) {
        QrPayloadKind::StealthRequest
    } else if len == 104 && has_prefix(data, ksfu.as_slice()) {
        QrPayloadKind::FirmwareUpdate
    } else if has_prefix(data, kpub.as_slice()) || (len == 79 && data[0] == 0x01) {
        QrPayloadKind::Kpub
    } else if len >= 5 && data[0] == 0x43 && data[1] == 0x4f && data[2] == 0x56 && (data[3] == 0x42 || data[3] == 0x49) {
        QrPayloadKind::CovenantRaw
    } else if len >= 10 && len <= 1024 && has_prefix(data, covhex.as_slice()) && (data[7] == 0x32 || data[7] == 0x39) {
        QrPayloadKind::CovenantHex
    } else {
        QrPayloadKind::Unknown
    }
}

/// Every payload that opens with the four bytes "PSKT" (a single
/// Kaspa-standard PSKT) or "PSKB" (a bundle) is routed as a PSKT, whatever follows.
pub proof fn lemma_pskt_and_pskb_route_as_pskt(d: Seq<u8>)
    requires
        d.len() >= 4,
        d[0] == 0x50u8 && d[1] == 0x53u8 && d[2] == 0x4bu8,
        d[3] == 0x54u8 || d[3] == 0x42u8,
    ensures
        qr_payload_kind(d) == QrPayloadKind::Pskt,
{
    if d.len() >= 6 {
        assert(d.take(6)[0] == 0x50u8);
    }
    assert(d.take(4)[0] == 0x50u8);
    if d[3] == 0x54u8 {
        assert(d.take(4) =~= seq![0x50u8, 0x53, 0x4b, 0x54]);
    } else {
        assert(d.take(4) =~= seq![0x50u8, 0x53, 0x4b, 0x42]);
    }
}

/// Every payload that opens with "KSPT" is routed as a KSPT transaction.
pub proof fn lemma_kspt_routes_as_kspt(d: Seq<u8>)
    requires
        d.len() >= 4,
        d[0] == 0x4bu8 && d[1] == 0x53u8 && d[2] == 0x50u8 && d[3] == 0x54u8,
    ensures
        qr_payload_kind(d) == QrPayloadKind::Kspt,
{
    if d.len() >= 6 {
        assert(d.take(6)[1] == 0x53u8);
        assert(d.take(6)[0] == 0x4bu8);
    }
    assert(d.take(4) =~= seq![0x4bu8, 0x53, 0x50, 0x54]);
}

/// Every payload that opens with "kaspa:" or "KASPA:" is routed as an address.
pub proof fn lemma_kaspa_prefix_routes_as_address(d: Seq<u8>)
    requires
        d.len() >= 6,
        d.take(6) == seq![0x6bu8, 0x61, 0x73, 0x70, 0x61, 0x3a] || d.take(6) == seq![0x4bu8, 0x41, 0x53, 0x50, 0x41, 0x3a],
    ensures
        qr_payload_kind(d) == QrPayloadKind::KaspaAddress,
{
}

fn all_digits(d: &[u8]) -> (b: bool)
    ensures
        b == all_ascii_digits(d@),
{
    let mut i: usize = 0;
    while i < d.len()
        invariant
            i <= d@.len(),
            forall|t: int| 0 <= t < i ==> 0x30 <= #[trigger] d@[t] <= 0x39,
        decreases d@.len() - i,
    {
        if d[i] < 0x30 || d[i] > 0x39 {
            return false;
        }
        i = i + 1;
    }
    true
}

/// The 32-byte hash carried by a "sign message hash" QR: 32 raw bytes, or
/// 64 hex digits.
pub open spec fn sign_hash_spec(d: Seq<u8>) -> Option<Seq<u8>> {
    if d.len() == 32 {
        Some(d)
    } else if d.len() == 64 && all_hex(d) {
        Some(hex_decode(d))
    } else {
        None
    }
}

/// Extract the 32-byte hash to sign from a scanned QR payload.
pub fn parse_sign_hash(data: &[u8]) -> (r: Option<[u8; 32]>)
    ensures
        r is Some <==> sign_hash_spec(data@) is Some,
        r matches Some(h) ==> sign_hash_spec(data@) == Some(h@),
{
    let mut hash = [0u8; 32];
    if data.len() == 32 {
        let mut i: usize = 0;
        while i < 32
            invariant
                i <= 32,
                data@.len() == 32,
                forall|t: int| 0 <= t < i ==> hash@[t] == data@[t],
            decreases 32 - i,
        {
            hash[i] = data[i];
            i = i + 1;
        }
        assert(hash@ =~= data@);
        Some(hash)
    } else if data.len() == 64 {
        let mut i: usize = 0;
        while i < 32
            invariant
                i <= 32,
                data@.len() == 64,
                forall|t: int| 0 <= t < 2 * i ==> #[trigger] is_hex_digit(data@[t]),
                forall|t: int| 0 <= t < i ==> hash@[t] == hex_decode(data@)[t],
            decreases 32 - i,
        {
            let hi = hex_nibble(data[i * 2]);
            let lo = hex_nibble(data[i * 2 + 1]);
            if hi == 0xFF || lo == 0xFF {
                assert(!is_hex_digit(data@[2 * i as int]) || !is_hex_digit(data@[2 * i + 1]));
                return None;
            }
            let b = (hi << 4) | lo;
            assert(b == hi * 16 + lo) by (bit_vector)
                requires hi < 16, lo < 16, b == (hi << 4) | lo;
            hash[i] = b;
            i = i + 1;
        }
        assert(hash@ =~= hex_decode(data@));
        Some(hash)
    } else {
        None
    }
}

/// A sign-hash code carries its hash either as the 32 raw bytes or as their
/// 64-digit lower-case hex text; codes of any other length carry none.
pub proof fn lemma_sign_hash_forms(h: Seq<u8>, d: Seq<u8>)
    requires
        h.len() == 32,
    ensures
        sign_hash_spec(h) == Some(h),
        sign_hash_spec(hex_lower(h)) == Some(h),
        d.len() != 32 && d.len() != 64 ==> sign_hash_spec(d) is None,
{
    lemma_hex_dump_roundtrip(h);
}

/// A scanned address as stored: at most `cap` bytes, ASCII upper case
/// folded to lower case.
pub open spec fn normalized_address(d: Seq<u8>, cap: nat) -> Seq<u8> {
    let n = if d.len() < cap { d.len() } else { cap };
    Seq::new(n, |i: int| if 0x41 <= d[i] <= 0x5a { (d[i] + 32) as u8 } else { d[i] })
}

/// A stored address keeps the first `cap` bytes (or all of them), holds no
/// ASCII upper-case letter, agrees with the scan up to letter case, and
/// normalising it again changes nothing.
pub proof fn lemma_normalized_address_laws(d: Seq<u8>, cap: nat)
    ensures
        normalized_address(d, cap).len() == if d.len() < cap { d.len() } else { cap },
        forall|i: int| 0 <= i < normalized_address(d, cap).len() ==>
            !(0x41 <= #[trigger] normalized_address(d, cap)[i] <= 0x5a),
        forall|i: int| 0 <= i < normalized_address(d, cap).len() ==>
            (#[trigger] normalized_address(d, cap)[i] == d[i]
                || normalized_address(d, cap)[i] == d[i] + 32),
        normalized_address(normalized_address(d, cap), cap) == normalized_address(d, cap),
{
    let a = normalized_address(d, cap);
    assert(normalized_address(a, cap) =~= a);
}

/// Lower-case and truncate a scanned `kaspa:` address for storage.
pub fn normalize_scanned_address(data: &[u8], cap: usize) -> (a: Vec<u8>)
    ensures
        a@ == normalized_address(data@, cap as nat),
{
    let n = if data.len() < cap { data.len() } else { cap };
    let mut out: Vec<u8> = Vec::new();
    let mut i: usize = 0;
    while i < n
        invariant
            n <= data@.len(),
            n == (if data@.len() < cap { data@.len() } else { cap as nat }),
            i <= n,
            out@ =~= normalized_address(data@, cap as nat).take(i as int),
        decreases n - i,
    {
        let c = data[i];
        out.push(if c >= 0x41 && c <= 0x5a { c + 32 } else { c });
        i = i + 1;
    }
    out
}

/// Value of a lower-case hex digit as read by the covenant decoder.
pub open spec fn lax_hex_value(c: u8) -> u8 {
    if c >= 0x61 { (c - 0x61 + 10) as u8 } else { (c - 0x30) as u8 }
}

/// The bytes of a hex-encoded covenant backup (lower-case digits expected;
/// other bytes are read without checking).
pub open spec fn covenant_hex_decode(d: Seq<u8>) -> Seq<u8> {
    Seq::new(d.len() / 2, |i: int| ((lax_hex_value(d[2 * i]) << 4u8) | lax_hex_value(d[2 * i + 1])) as u8)
}

/// Decode a hex-encoded covenant backup.
pub fn decode_covenant_hex(data: &[u8]) -> (out: Vec<u8>)
    requires
        forall|i: int| 0 <= i < data@.len() ==> #[trigger] data@[i] >= 0x30,
    ensures
        out@ == covenant_hex_decode(data@),
{
    let dlen = data.len();
    let n = dlen / 2;
    let mut out: Vec<u8> = Vec::new();
    let mut i: usize = 0;
    while i < n
        invariant
            dlen == data@.len(),
            n == data@.len() / 2,
            i <= n,
            forall|t: int| 0 <= t < data@.len() ==> #[trigger] data@[t] >= 0x30,
            out@ =~= covenant_hex_decode(data@).take(i as int),
        decreases n - i,
    {
        let h = data[i * 2];
        let l = data[i * 2 + 1];
        let hi = if h >= 0x61 { h - 0x61 + 10 } else { h - 0x30 };
        let lo = if l >= 0x61 { l - 0x61 + 10 } else { l - 0x30 };
        out.push((hi << 4) | lo);
        i = i + 1;
    }
    out
}


// ─── Ciphertext in hex ─────────────────────────────────────────────

/// The bytes are valid UTF-8, as `core::str::from_utf8` decides.
pub uninterp spec fn utf8_valid_spec(data: Seq<u8>) -> bool;

/// `core::str::from_utf8` on the bytes: claims that whether it succeeds is
/// the named property of the bytes, and that ASCII bytes always succeed (the
/// documentation: UTF-8 encodes ASCII as itself).
#[verifier::external_body]
fn utf8_valid(data: &[u8]) -> (ok: bool)
    ensures
        ok == utf8_valid_spec(data@),
        (forall|i: int| 0 <= i < data@.len() ==> data@[i] < 0x80) ==> ok,
{
    core::str::from_utf8(data).is_ok()
}

/// A one-byte white-space character: tab, line feed, vertical tab, form
/// feed, carriage return, space.
pub open spec fn ws1(b: u8) -> bool {
    b == 0x09 || b == 0x0a || b == 0x0b || b == 0x0c || b == 0x0d || b == 0x20
}

/// A two-byte white-space character: U+0085, U+00A0.
pub open spec fn ws2(a: u8, b: u8) -> bool {
    a == 0xc2 && (b == 0x85 || b == 0xa0)
}

/// A three-byte white-space character: U+1680, U+2000 to U+200A, U+2028,
/// U+2029, U+202F, U+205F, U+3000.
pub open spec fn ws3(a: u8, b: u8, c: u8) -> bool {
    ||| a == 0xe1 && b == 0x9a && c == 0x80
    ||| a == 0xe2 && b == 0x80 && ((0x80 <= c && c <= 0x8a) || c == 0xa8 || c == 0xa9 || c == 0xaf)
    ||| a == 0xe2 && b == 0x81 && c == 0x9f
    ||| a == 0xe3 && b == 0x80 && c == 0x80
}

/// Length of the white-space character `d` starts with (0 when none).
pub open spec fn lead_ws_len(d: Seq<u8>) -> nat {
    if d.len() >= 1 && ws1(d[0]) {
        1
    } else if d.len() >= 2 && ws2(d[0], d[1]) {
        2
    } else if d.len() >= 3 && ws3(d[0], d[1], d[2]) {
        3
    } else {
        0
    }
}

/// Length of the white-space character `d` ends with (0 when none).
pub open spec fn trail_ws_len(d: Seq<u8>) -> nat {
    let n = d.len() as int;
    if n >= 1 && ws1(d[n - 1]) {
        1
    } else if n >= 2 && ws2(d[n - 2], d[n - 1]) {
        2
    } else if n >= 3 && ws3(d[n - 3], d[n - 2], d[n - 1]) {
        3
    } else {
        0
    }
}

/// `d` without leading white space.
pub open spec fn trim_start(d: Seq<u8>) -> Seq<u8>
    decreases d.len(),
{
    let k = lead_ws_len(d);
    if k == 0 { d } else { trim_start(d.skip(k as int)) }
}

/// `d` without trailing white space.
pub open spec fn trim_end(d: Seq<u8>) -> Seq<u8>
    decreases d.len(),
{
    let k = trail_ws_len(d);
    if k == 0 { d } else { trim_end(d.take(d.len() - k)) }
}

/// `d` without white space at either end.
pub open spec fn trim_ws(d: Seq<u8>) -> Seq<u8> {
    trim_end(trim_start(d))
}

fn lead_ws(d: &[u8], s: usize, e: usize) -> (k: usize)
    requires
        s <= e <= d@.len(),
    ensures
        k == lead_ws_len(d@.subrange(s as int, e as int)),
{
    let n = e - s;
    if n >= 1 {
        let a = d[s];
        if a == 0x09 || a == 0x0a || a == 0x0b || a == 0x0c || a == 0x0d || a == 0x20 {
            return 1;
        }
    }
    if n >= 2 && d[s] == 0xc2 && (d[s + 1] == 0x85 || d[s + 1] == 0xa0) {
        return 2;
    }
    if n >= 3 {
        let (a, b, c) = (d[s], d[s + 1], d[s + 2]);
        if (a == 0xe1 && b == 0x9a && c == 0x80)
            || (a == 0xe2 && b == 0x80 && ((0x80 <= c && c <= 0x8a) || c == 0xa8 || c == 0xa9 || c == 0xaf))
            || (a == 0xe2 && b == 0x81 && c == 0x9f)
            || (a == 0xe3 && b == 0x80 && c == 0x80)
        {
            return 3;
        }
    }
    0
}

fn trail_ws(d: &[u8], s: usize, e: usize) -> (k: usize)
    requires
        s <= e <= d@.len(),
    ensures
        k == trail_ws_len(d@.subrange(s as int, e as int)),
{
    let n = e - s;
    if n >= 1 {
        let a = d[e - 1];
        if a == 0x09 || a == 0x0a || a == 0x0b || a == 0x0c || a == 0x0d || a == 0x20 {
            return 1;
        }
    }
    if n >= 2 && d[e - 2] == 0xc2 && (d[e - 1] == 0x85 || d[e - 1] == 0xa0) {
        return 2;
    }
    if n >= 3 {
        let (a, b, c) = (d[e - 3], d[e - 2], d[e - 1]);
        if (a == 0xe1 && b == 0x9a && c == 0x80)
            || (a == 0xe2 && b == 0x80 && ((0x80 <= c && c <= 0x8a) || c == 0xa8 || c == 0xa9 || c == 0xaf))
            || (a == 0xe2 && b == 0x81 && c == 0x9f)
            || (a == 0xe3 && b == 0x80 && c == 0x80)
        {
            return 3;
        }
    }
    0
}

/// Where the text of `d` lies once white space is trimmed from both ends.
pub fn trim_bounds(d: &[u8]) -> (r: (usize, usize))
    ensures
        r.0 <= r.1 <= d@.len(),
        d@.subrange(r.0 as int, r.1 as int) == trim_ws(d@),
{
    let len = d.len();
    let mut s: usize = 0;
    assert(d@.subrange(0, len as int) =~= d@);
    loop
        invariant
            s <= len == d@.len(),
            trim_start(d@) == trim_start(d@.subrange(s as int, len as int)),
        ensures
            s <= len,
            trim_start(d@) == trim_start(d@.subrange(s as int, len as int)),
            lead_ws_len(d@.subrange(s as int, len as int)) == 0,
        decreases len - s,
    {
        let k = lead_ws(d, s, len);
        if k == 0 {
            break;
        }
        assert(d@.subrange(s as int, len as int).skip(k as int) =~= d@.subrange(s + k, len as int));
        s = s + k;
    }
    let mut e: usize = len;
    assert(trim_start(d@) == d@.subrange(s as int, len as int));
    loop
        invariant
            s <= e <= len == d@.len(),
            trim_ws(d@) == trim_end(d@.subrange(s as int, e as int)),
        ensures
            s <= e <= len,
            trim_ws(d@) == trim_end(d@.subrange(s as int, e as int)),
            trail_ws_len(d@.subrange(s as int, e as int)) == 0,
        decreases e - s,
    {
        let k = trail_ws(d, s, e);
        if k == 0 {
            break;
        }
        assert(d@.subrange(s as int, e as int).take(e - s - k) =~= d@.subrange(s as int, e - k));
        e = e - k;
    }
    (s, e)
}

/// Shortest ciphertext hex text accepted (61 bytes).
pub const CIPHERTEXT_MIN_HEX: usize = 122;

/// Why a scanned ciphertext was refused.
#[derive(Debug, Clone, Copy, PartialEq, Eq, Structural)]
pub enum CiphertextError {
    /// Not text, too short, or of odd length ("Invalid ciphertext hex").
    InvalidHex,
    /// A character that is not a hex digit ("Bad hex data").
    BadHex,
}

/// The ciphertext a scanned code carries as hex text (white space around it
/// ignored): refused unless the bytes are UTF-8 text of an even number, at
/// least 122, of hex digits.
pub open spec fn ciphertext_spec(data: Seq<u8>) -> Result<Seq<u8>, CiphertextError> {
    let t = trim_ws(data);
    if !utf8_valid_spec(data) || t.len() < CIPHERTEXT_MIN_HEX || t.len() % 2 != 0 {
        Err(CiphertextError::InvalidHex)
    } else if !all_hex(t) {
        Err(CiphertextError::BadHex)
    } else {
        Ok(hex_decode(t))
    }
}

/// A hex digit is none of the bytes a white-space character begins or ends with.
proof fn lemma_hex_text_has_no_ws(t: Seq<u8>)
    requires
        all_hex(t),
    ensures
        lead_ws_len(t) == 0,
        trail_ws_len(t) == 0,
        trim_ws(t) == t,
{
    if t.len() >= 1 {
        assert(is_hex_digit(t[0]));
        assert(is_hex_digit(t[t.len() - 1]));
    }
    if t.len() >= 2 {
        assert(is_hex_digit(t[t.len() - 2]));
    }
    if t.len() >= 3 {
        assert(is_hex_digit(t[t.len() - 3]));
    }
    assert(trim_start(t) == t);
    assert(trim_end(t) == t);
}

/// The lower-case hex text of a ciphertext of at least 61 bytes is read back
/// as that ciphertext, also with white space around it; hex text shorter than
/// 122 digits is refused as invalid.
pub proof fn lemma_ciphertext_hex_roundtrip(ct: Seq<u8>, data: Seq<u8>)
    requires
        utf8_valid_spec(data),
        trim_ws(data) == hex_lower(ct),
    ensures
        ct.len() >= 61 ==> ciphertext_spec(data) == Ok::<Seq<u8>, CiphertextError>(ct),
        ct.len() < 61 ==> ciphertext_spec(data) == Err::<Seq<u8>, CiphertextError>(CiphertextError::InvalidHex),
{
    lemma_hex_dump_roundtrip(ct);
}

/// The bare lower-case hex text of a ciphertext of at least 61 bytes is
/// read back as that ciphertext.
pub proof fn lemma_bare_ciphertext_hex(ct: Seq<u8>)
    requires
        utf8_valid_spec(hex_lower(ct)),
        ct.len() >= 61,
    ensures
        ciphertext_spec(hex_lower(ct)) == Ok::<Seq<u8>, CiphertextError>(ct),
{
    lemma_hex_dump_roundtrip(ct);
    lemma_hex_text_has_no_ws(hex_lower(ct));
    lemma_ciphertext_hex_roundtrip(ct, hex_lower(ct));
}

/// The ciphertext a scanned code carries (see [`ciphertext_spec`]).
pub fn parse_ciphertext_hex(data: &[u8]) -> (r: Result<Vec<u8>, CiphertextError>)
    ensures
        match ciphertext_spec(data@) {
            Ok(ct) => r matches Ok(v) && v@ == ct,
            Err(e) => r == Err::<Vec<u8>, CiphertextError>(e),
        },
{
    if !utf8_valid(data) {
        return Err(CiphertextError::InvalidHex);
    }
    let (s, e) = trim_bounds(data);
    let ghost t = trim_ws(data@);
    let n = e - s;
    if n < CIPHERTEXT_MIN_HEX || n % 2 != 0 {
        return Err(CiphertextError::InvalidHex);
    }
    let mut out: Vec<u8> = Vec::new();
    let mut j: usize = 0;
    while j < n / 2
        invariant
            s <= e <= data@.len(),
            n == e - s,
            n % 2 == 0,
            n >= CIPHERTEXT_MIN_HEX,
            utf8_valid_spec(data@),
            t == trim_ws(data@),
            t == data@.subrange(s as int, e as int),
            j <= n / 2,
            out@.len() == j,
            forall|i: int| 0 <= i < 2 * j ==> #[trigger] is_hex_digit(t[i]),
            forall|i: int| 0 <= i < j ==> out@[i] == hex_decode(t)[i],
        decreases n / 2 - j,
    {
        let hi = hex_nibble(data[s + 2 * j]);
        let lo = hex_nibble(data[s + 2 * j + 1]);
        assert(t[2 * j as int] == data@[s + 2 * j]);
        assert(t[2 * j + 1] == data@[s + 2 * j + 1]);
        if hi == 0xFF || lo == 0xFF {
            proof {
                let bad: int = if hi == 0xFF { 2 * j as int } else { 2 * j as int + 1 };
                assert(2 * j + 1 < n);
                assert(!is_hex_digit(t[bad]));
            }
            return Err(CiphertextError::BadHex);
        }
        out.push(hi * 16 + lo);
        j = j + 1;
    }
    proof {
        assert forall|i: int| 0 <= i < t.len() implies #[trigger] is_hex_digit(t[i]) by {
            assert(i < 2 * j);
        }
        assert(out@ =~= hex_decode(t));
    }
    Ok(out)
}

} // verus!
