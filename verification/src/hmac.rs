//! Digests from the `sha2` crate, HMAC-SHA512 (RFC 2104) over them, and
//! buffer wiping.

use vstd::prelude::*;

verus! {

/// SHA-512 block size in bytes.
pub const SHA512_BLOCK: usize = 128;

/// The SHA-512 digest of `data`, as computed by the `sha2` crate.
pub uninterp spec fn sha512_spec(data: Seq<u8>) -> Seq<u8>;

/// SHA-512 of `data` via `sha2::Sha512`.
/// Claims only that the 64-byte digest is the named function of the input bytes.
#[verifier::external_body]
pub(crate) fn sha512(data: &[u8]) -> (d: [u8; 64])
    ensures
        d@ == sha512_spec(data@),
{
    let h = <sha2::Sha512 as sha2::Digest>::digest(data);
    let mut out = [0u8; 64];
    out.copy_from_slice(h.as_slice());
    out
}

/// The SHA-256 digest of `data`, as computed by the `sha2` crate.
pub uninterp spec fn sha256_spec(data: Seq<u8>) -> Seq<u8>;

/// SHA-256 of `data` via `sha2::Sha256`.
/// Claims only that the 32-byte digest is the named function of the input bytes.
#[verifier::external_body]
pub(crate) fn sha256(data: &[u8]) -> (d: [u8; 32])
    ensures
        d@ == sha256_spec(data@),
{
    let h = <sha2::Sha256 as sha2::Digest>::digest(data);
    let mut out = [0u8; 32];
    out.copy_from_slice(h.as_slice());
    out
}

/// The HMAC key block: keys longer than a block are hashed first, then the
/// key is padded with zeros to the block size.
pub open spec fn hmac_key_block(key: Seq<u8>) -> Seq<u8> {
    let k = if key.len() > SHA512_BLOCK { sha512_spec(key) } else { key };
    Seq::new(SHA512_BLOCK as nat, |i: int| if i < k.len() { k[i] } else { 0u8 })
}

/// Every byte of `s` XOR-ed with `pad`.
pub open spec fn xor_pad(s: Seq<u8>, pad: u8) -> Seq<u8> {
    Seq::new(s.len(), |i: int| s[i] ^ pad)
}

/// HMAC-SHA512(key, msg) = H((K0 ^ opad) || H((K0 ^ ipad) || msg)).
pub open spec fn hmac_sha512_spec(key: Seq<u8>, msg: Seq<u8>) -> Seq<u8> {
    let k0 = hmac_key_block(key);
    sha512_spec(xor_pad(k0, 0x5cu8) + sha512_spec(xor_pad(k0, 0x36u8) + msg))
}

/// HMAC-SHA512 of `msg` under `key`.
pub fn hmac_sha512(key: &[u8], msg: &[u8]) -> (mac: [u8; 64])
    ensures
        mac@ == hmac_sha512_spec(key@, msg@),
{
    let ghost k0 = hmac_key_block(key@);
    let mut kb: [u8; 128] = [0u8; 128];
    if key.len() > SHA512_BLOCK {
        let h = sha512(key);
        let mut i: usize = 0;
        while i < 64
            invariant
                i <= 64,
                h@ == sha512_spec(key@),
                key@.len() > SHA512_BLOCK,
                forall|j: int| 0 <= j < i ==> kb@[j] == h@[j],
                forall|j: int| i <= j < 128 ==> kb@[j] == 0u8,
            decreases 64 - i,
        {
            kb[i] = h[i];
            i = i + 1;
        }
    } else {
        let mut i: usize = 0;
        while i < key.len()
            invariant
                i <= key@.len(),
                key@.len() <= SHA512_BLOCK,
                forall|j: int| 0 <= j < i ==> kb@[j] == key@[j],
                forall|j: int| i <= j < 128 ==> kb@[j] == 0u8,
            decreases key@.len() - i,
        {
            kb[i] = key[i];
            i = i + 1;
        }
    }
    assert(kb@ =~= k0);

    let mut inner: Vec<u8> = Vec::new();
    let mut i: usize = 0;
    while i < SHA512_BLOCK
        invariant
            i <= SHA512_BLOCK,
            kb@ == k0,
            k0.len() == SHA512_BLOCK,
            inner@ =~= xor_pad(k0, 0x36u8).take(i as int),
        decreases SHA512_BLOCK - i,
    {
        inner.push(kb[i] ^ 0x36u8);
        i = i + 1;
    }
    let mut i: usize = 0;
    while i < msg.len()
        invariant
            i <= msg@.len(),
            inner@ =~= xor_pad(k0, 0x36u8) + msg@.take(i as int),
        decreases msg@.len() - i,
    {
        inner.push(msg[i]);
        i = i + 1;
    }
    assert(msg@.take(msg@.len() as int) =~= msg@);
    let ih = sha512(inner.as_slice());

    let mut outer: Vec<u8> = Vec::new();
    let mut i: usize = 0;
    while i < SHA512_BLOCK
        invariant
            i <= SHA512_BLOCK,
            kb@ == k0,
            k0.len() == SHA512_BLOCK,
            outer@ =~= xor_pad(k0, 0x5cu8).take(i as int),
        decreases SHA512_BLOCK - i,
    {
        outer.push(kb[i] ^ 0x5cu8);
        i = i + 1;
    }
    let mut i: usize = 0;
    while i < 64
        invariant
            i <= 64,
            ih@.len() == 64,
            outer@ =~= xor_pad(k0, 0x5cu8) + ih@.take(i as int),
        decreases 64 - i,
    {
        outer.push(ih[i]);
        i = i + 1;
    }
    assert(ih@.take(64) =~= ih@);
    sha512(outer.as_slice())
}

/// Overwrite every byte of `buf` with zero.
pub fn zeroize_buf(buf: &mut [u8])
    ensures
        final(buf)@.len() == old(buf)@.len(),
        forall|i: int| 0 <= i < final(buf)@.len() ==> final(buf)@[i] == 0u8,
{
    let mut i: usize = 0;
    while i < buf.len()
        invariant
            i <= buf@.len(),
            buf@.len() == old(buf)@.len(),
            forall|j: int| 0 <= j < i ==> buf@[j] == 0u8,
        decreases buf@.len() - i,
    {
        buf[i] = 0;
        i = i + 1;
    }
}

} // verus!
