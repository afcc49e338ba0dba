//! The encrypted SD file container `KAS\x03`:
//!
//! `'K' 'A' 'S' 0x03 | len (2 bytes LE) | nonce (12) | ciphertext (len) | tag (16)`
//!
//! sealed with AES-256-GCM, the six header bytes serving as associated data.
//! Files of this kind hold at most 1024 bytes.

use vstd::prelude::*;

verus! {

/// Largest container the device writes or reads back.
pub const KAS3_MAX_FILE: usize = 1024;
/// Bytes the container adds around its payload: header, nonce and tag.
pub const KAS3_OVERHEAD: usize = 34;

/// AES-256-GCM encryption of `pt` under `key`, `nonce` and associated data
/// `aad`, as computed by the `aes-gcm` crate: the ciphertext followed by the
/// 16-byte tag.
pub uninterp spec fn aes256gcm_encrypt_spec(key: Seq<u8>, nonce: Seq<u8>, aad: Seq<u8>, pt: Seq<u8>) -> Seq<u8>;

/// AES-256-GCM decryption of `ct` with tag `tag`, as computed by the `aes-gcm`
/// crate: the plaintext, or `None` when the tag does not authenticate.
pub uninterp spec fn aes256gcm_decrypt_spec(key: Seq<u8>, nonce: Seq<u8>, aad: Seq<u8>, ct: Seq<u8>, tag: Seq<u8>) -> Option<Seq<u8>>;

/// `aes_gcm::Aes256Gcm::encrypt_in_place_detached`: encrypts `buf` in place and
/// returns the tag. Claims that ciphertext and tag are the named encryption of
/// the plaintext, and that the call succeeds for buffers within the crate's
/// plaintext limit (2^36 bytes), as its source checks.
#[verifier::external_body]
fn aes256gcm_encrypt(key: &[u8; 32], nonce: &[u8; 12], aad: &[u8], buf: &mut [u8]) -> (tag: Option<[u8; 16]>)
    requires
        old(buf)@.len() <= 0x10_0000_0000,
        aad@.len() <= 0x10_0000_0000,
    ensures
        final(buf)@.len() == old(buf)@.len(),
        (tag matches Some(t) && final(buf)@ + t@ == aes256gcm_encrypt_spec(key@, nonce@, aad@, old(buf)@)),
{
    let cipher = <aes_gcm::Aes256Gcm as aes_gcm::aead::KeyInit>::new(
        aes_gcm::aead::generic_array::GenericArray::from_slice(key));
    let nonce_ga = aes_gcm::aead::generic_array::GenericArray::from_slice(nonce);
    match aes_gcm::aead::AeadInPlace::encrypt_in_place_detached(&cipher, nonce_ga, aad, buf) {
        Ok(t) => {
            let mut out = [0u8; 16];
            out.copy_from_slice(t.as_slice());
            Some(out)
        },
        Err(_) => None,
    }
}

/// `aes_gcm::Aes256Gcm::decrypt_in_place_detached`: checks the tag and, when it
/// authenticates, decrypts `buf` in place. Claims that the outcome is the named
/// decryption, that a failed call leaves the buffer as it was, and — as the
/// source shows, recomputing the tag over the ciphertext before removing the
/// keystream — that the output of the encryption above always decrypts back
/// to its plaintext.
#[verifier::external_body]
fn aes256gcm_decrypt(key: &[u8; 32], nonce: &[u8; 12], aad: &[u8], buf: &mut [u8], tag: &[u8; 16]) -> (ok: bool)
    requires
        old(buf)@.len() <= 0x10_0000_0010,
        aad@.len() <= 0x10_0000_0000,
    ensures
        final(buf)@.len() == old(buf)@.len(),
        ok ==> aes256gcm_decrypt_spec(key@, nonce@, aad@, old(buf)@, tag@) == Some(final(buf)@),
        !ok ==> aes256gcm_decrypt_spec(key@, nonce@, aad@, old(buf)@, tag@) is None && final(buf)@ == old(buf)@,
        forall|pt: Seq<u8>| old(buf)@ + tag@ == #[trigger] aes256gcm_encrypt_spec(key@, nonce@, aad@, pt)
            ==> ok && final(buf)@ == pt,
{
    let cipher = <aes_gcm::Aes256Gcm as aes_gcm::aead::KeyInit>::new(
        aes_gcm::aead::generic_array::GenericArray::from_slice(key));
    let nonce_ga = aes_gcm::aead::generic_array::GenericArray::from_slice(nonce);
    let tag_ga = aes_gcm::aead::generic_array::GenericArray::from_slice(tag);
    aes_gcm::aead::AeadInPlace::decrypt_in_place_detached(&cipher, nonce_ga, aad, buf, tag_ga).is_ok()
}

/// The six header bytes for a payload of `len` bytes.
pub open spec fn kas3_header(len: nat) -> Seq<u8> {
    seq![0x4bu8, 0x41u8, 0x53u8, 0x03u8, (len % 256) as u8, ((len / 256) % 256) as u8]
}

/// The container holding `data` sealed under `key` with `nonce`.
pub open spec fn kas3_file(key: Seq<u8>, nonce: Seq<u8>, data: Seq<u8>) -> Seq<u8> {
    kas3_header(data.len()) + nonce + aes256gcm_encrypt_spec(key, nonce, kas3_header(data.len()), data)
}

/// `file` is the container sealing `data` under `key` with the 12-byte
/// `nonce`, as `encrypt_kas3_file` produces it.
pub open spec fn kas3_sealed(file: Seq<u8>, key: Seq<u8>, nonce: Seq<u8>, data: Seq<u8>) -> bool {
    &&& nonce.len() == 12
    &&& KAS3_OVERHEAD + data.len() <= KAS3_MAX_FILE
    &&& aes256gcm_encrypt_spec(key, nonce, kas3_header(data.len()), data).len() == data.len() + 16
    &&& file == kas3_file(key, nonce, data)
}

/// Why a container could not be opened.
#[derive(Clone, Copy, Debug, PartialEq, Eq, Structural)]
pub enum Kas3Error {
    /// Not a `KAS\x03` container, or truncated, or too large.
    InvalidFile,
    /// The tag does not authenticate under the given key (wrong password).
    WrongPassword,
}

/// The payload length a container declares.
pub open spec fn kas3_declared_len(file: Seq<u8>) -> nat {
    (file[4] + 256 * file[5]) as nat
}

/// `file` has the shape of a container: long enough, the marker bytes in
/// place, and the declared payload fits both the file and the size limit.
pub open spec fn kas3_well_formed(file: Seq<u8>) -> bool {
    &&& file.len() >= 35
    &&& file[0] == 0x4bu8
    &&& file[3] == 0x03u8
    &&& KAS3_OVERHEAD + kas3_declared_len(file) <= file.len()
    &&& kas3_declared_len(file) <= KAS3_MAX_FILE - KAS3_OVERHEAD
}

/// The result of opening a well-formed container under `key`.
pub open spec fn kas3_open_spec(key: Seq<u8>, file: Seq<u8>) -> Option<Seq<u8>> {
    let len = kas3_declared_len(file) as int;
    aes256gcm_decrypt_spec(key, file.subrange(6, 18), kas3_header(len as nat),
        file.subrange(18, 18 + len), file.subrange(18 + len, 34 + len))
}

/// Seal `data` into a container under `key` with `nonce`. Fails when the
/// container would exceed 1024 bytes.
pub fn encrypt_kas3_file(key: &[u8; 32], nonce: &[u8; 12], data: &[u8]) -> (r: Option<Vec<u8>>)
    ensures
        r is Some <==> KAS3_OVERHEAD + data@.len() <= KAS3_MAX_FILE,
        r matches Some(f) ==> kas3_sealed(f@, key@, nonce@, data@),
{
    if data.len() > KAS3_MAX_FILE - KAS3_OVERHEAD {
        return None;
    }
    let len = data.len();
    let lo = (len % 256) as u8;
    let hi = (len / 256) as u8;
    let aad: [u8; 6] = [0x4b, 0x41, 0x53, 0x03, lo, hi];
    assert(aad@ =~= kas3_header(data@.len()));
    let mut body: Vec<u8> = Vec::new();
    let mut i: usize = 0;
    while i < len
        invariant
            len == data@.len(),
            i <= len,
            body@ =~= data@.take(i as int),
        decreases len - i,
    {
        body.push(data[i]);
        i = i + 1;
    }
    assert(data@.take(len as int) =~= data@);
    let ghost pt = body@;
    let tag = match aes256gcm_encrypt(key, nonce, aad.as_slice(), body.as_mut_slice()) {
        Some(t) => t,
        None => return None,
    };
    let mut file: Vec<u8> = Vec::new();
    let mut i: usize = 0;
    while i < 6
        invariant
            i <= 6,
            file@ =~= aad@.take(i as int),
        decreases 6 - i,
    {
        file.push(aad[i]);
        i = i + 1;
    }
    let mut i: usize = 0;
    while i < 12
        invariant
            i <= 12,
            file@ =~= aad@ + nonce@.take(i as int),
        decreases 12 - i,
    {
        file.push(nonce[i]);
        i = i + 1;
    }
    let mut i: usize = 0;
    while i < body.len()
        invariant
            i <= body@.len(),
            file@ =~= aad@ + nonce@ + body@.take(i as int),
        decreases body@.len() - i,
    {
        file.push(body[i]);
        i = i + 1;
    }
    let mut i: usize = 0;
    while i < 16
        invariant
            i <= 16,
            file@ =~= aad@ + nonce@ + body@ + tag@.take(i as int),
        decreases 16 - i,
    {
        file.push(tag[i]);
        i = i + 1;
    }
    assert(body@.take(body@.len() as int) =~= body@);
    assert(tag@.take(16) =~= tag@);
    assert(file@ =~= kas3_file(key@, nonce@, data@));
    Some(file)
}

/// Open a container under `key`. Every container this module seals opens
/// again under the same key to the data that was sealed.
pub fn decrypt_kas3_file(key: &[u8; 32], file: &[u8]) -> (r: Result<Vec<u8>, Kas3Error>)
    ensures
        !kas3_well_formed(file@) ==> r == Err::<Vec<u8>, Kas3Error>(Kas3Error::InvalidFile),
        kas3_well_formed(file@) ==> match kas3_open_spec(key@, file@) {
            Some(pt) => (r matches Ok(p) && p@ == pt),
            None => r == Err::<Vec<u8>, Kas3Error>(Kas3Error::WrongPassword),
        },
        // what was sealed under a key opens under that key to the sealed data
        forall|nonce: Seq<u8>, data: Seq<u8>|
            #[trigger] kas3_sealed(file@, key@, nonce, data) && data.len() >= 1
            ==> (r matches Ok(p) && p@ == data),
{
    let flen = file.len();
    if !(flen >= 35 && file[0] == 0x4b && file[3] == 0x03) {
        proof { lemma_sealed_well_formed(file@, key@); }
        return Err(Kas3Error::InvalidFile);
    }
    let data_len = (file[4] as usize) + 256 * (file[5] as usize);
    if !(KAS3_OVERHEAD + data_len <= flen && data_len <= KAS3_MAX_FILE - KAS3_OVERHEAD) {
        proof { lemma_sealed_well_formed(file@, key@); }
        return Err(Kas3Error::InvalidFile);
    }
    let mut nonce = [0u8; 12];
    let mut i: usize = 0;
    while i < 12
        invariant
            i <= 12,
            flen == file@.len(),
            flen >= 35,
            forall|t: int| 0 <= t < i ==> nonce@[t] == file@[6 + t],
        decreases 12 - i,
    {
        nonce[i] = file[6 + i];
        i = i + 1;
    }
    assert(nonce@ =~= file@.subrange(6, 18));
    let mut tag = [0u8; 16];
    let mut i: usize = 0;
    while i < 16
        invariant
            i <= 16,
            flen == file@.len(),
            KAS3_OVERHEAD + data_len <= flen,
            forall|t: int| 0 <= t < i ==> tag@[t] == file@[18 + data_len + t],
        decreases 16 - i,
    {
        tag[i] = file[18 + data_len + i];
        i = i + 1;
    }
    assert(tag@ =~= file@.subrange(18 + data_len, 34 + data_len));
    let mut plain: Vec<u8> = Vec::new();
    let mut i: usize = 0;
    while i < data_len
        invariant
            i <= data_len,
            flen == file@.len(),
            KAS3_OVERHEAD + data_len <= flen,
            plain@ =~= file@.subrange(18, 18 + i),
        decreases data_len - i,
    {
        plain.push(file[18 + i]);
        i = i + 1;
    }
    let aad: [u8; 6] = [0x4b, 0x41, 0x53, 0x03, file[4], file[5]];
    proof {
        let dl = data_len as nat;
        assert(dl == kas3_declared_len(file@));
        assert(dl % 256 == file@[4] && (dl / 256) % 256 == file@[5]) by (nonlinear_arith)
            requires dl == file@[4] + 256 * file@[5], file@[4] < 256, file@[5] < 256;
    }
    assert(aad@ =~= kas3_header(data_len as nat));
    let ghost ct = plain@;
    proof {
        assert forall|n: Seq<u8>, d: Seq<u8>| #[trigger] kas3_sealed(file@, key@, n, d) && d.len() >= 1
            implies n == nonce@ && d.len() == data_len && ct + tag@ == aes256gcm_encrypt_spec(key@, n, aad@, d) by {
            lemma_sealed_shape(file@, key@, n, d);
        }
    }
    let ok = aes256gcm_decrypt(key, &nonce, aad.as_slice(), plain.as_mut_slice(), &tag);
    proof {
        assert forall|n: Seq<u8>, d: Seq<u8>| #[trigger] kas3_sealed(file@, key@, n, d) && d.len() >= 1
            implies ok && plain@ == d by {
            assert(ct + tag@ == aes256gcm_encrypt_spec(key@, nonce@, aad@, d));
        }
    }
    if ok {
        Ok(plain)
    } else {
        Err(Kas3Error::WrongPassword)
    }
}

proof fn lemma_sealed_well_formed(file: Seq<u8>, key: Seq<u8>)
    ensures
        forall|n: Seq<u8>, d: Seq<u8>| #[trigger] kas3_sealed(file, key, n, d) && d.len() >= 1
            ==> kas3_well_formed(file),
{
    assert forall|n: Seq<u8>, d: Seq<u8>| #[trigger] kas3_sealed(file, key, n, d) && d.len() >= 1
        implies kas3_well_formed(file) by {
        lemma_sealed_shape(file, key, n, d);
    }
}

/// A sealed container is well formed and its parts sit where the opener reads them.
proof fn lemma_sealed_shape(file: Seq<u8>, key: Seq<u8>, nonce: Seq<u8>, data: Seq<u8>)
    requires
        kas3_sealed(file, key, nonce, data),
        data.len() >= 1,
    ensures
        kas3_well_formed(file),
        kas3_declared_len(file) == data.len(),
        file.subrange(6, 18) == nonce,
        file.subrange(18, 18 + data.len() as int) + file.subrange(18 + data.len() as int, 34 + data.len() as int)
            == aes256gcm_encrypt_spec(key, nonce, kas3_header(data.len()), data),
{
    let len = data.len();
    let h = kas3_header(len);
    let enc = aes256gcm_encrypt_spec(key, nonce, h, data);
    assert(file[4] == h[4] && file[5] == h[5]);
    assert((len % 256) + 256 * ((len / 256) % 256) == len) by (nonlinear_arith)
        requires len < 65536;
    assert(file.subrange(6, 18) =~= nonce);
    assert(file.subrange(18, 18 + len as int) + file.subrange(18 + len as int, 34 + len as int) =~= enc);
}

} // verus!
