//! Central random generator: an HMAC-DRBG (SHA-512) seeded once from the
//! hardware TRNG after a start-up health check of the seed.
//!
//! There is deliberately no weak or silent fallback: every failure is an
//! explicit error, and a failed `fill` clears the destination.

use vstd::prelude::*;
use crate::hmac::{hmac_sha512, hmac_sha512_spec, zeroize_buf};

verus! {

/// Length of the TRNG seed in bytes.
pub const SEED_LEN: usize = 96;

/// Errors of the entropy subsystem.
#[derive(Clone, Copy, Debug, PartialEq, Eq, Structural)]
pub enum EntropyError {
    AlreadyInitialized,
    TrngUnavailable,
    HardwareHealthTestFailed,
    NotInitialized,
    GeneratorBusy,
    RequestCounterExhausted,
}

/// HMAC-DRBG state: the HMAC key, the chaining value and the number of
/// requests served.
pub struct HmacDrbg {
    key: [u8; 64],
    value: [u8; 64],
    requests: u64,
}

/// The observable state of an [`HmacDrbg`].
pub struct DrbgView {
    pub key: Seq<u8>,
    pub value: Seq<u8>,
    pub requests: u64,
}

impl View for HmacDrbg {
    type V = DrbgView;

    closed spec fn view(&self) -> DrbgView {
        DrbgView { key: self.key@, value: self.value@, requests: self.requests }
    }
}

/// `value || marker || data`.
pub open spec fn update_material(value: Seq<u8>, marker: u8, data: Seq<u8>) -> Seq<u8> {
    value + seq![marker] + data
}

/// The HMAC-DRBG update function: gives the new (key, value).
pub open spec fn drbg_update(key: Seq<u8>, value: Seq<u8>, data: Seq<u8>) -> (Seq<u8>, Seq<u8>) {
    let k1 = hmac_sha512_spec(key, update_material(value, 0u8, data));
    let v1 = hmac_sha512_spec(k1, value);
    if data.len() == 0 {
        (k1, v1)
    } else {
        let k2 = hmac_sha512_spec(k1, update_material(v1, 1u8, data));
        (k2, hmac_sha512_spec(k2, v1))
    }
}

/// The chaining value after `n` output blocks under `key`.
pub open spec fn drbg_value_after(key: Seq<u8>, value: Seq<u8>, n: nat) -> Seq<u8>
    decreases n,
{
    if n == 0 { value } else { hmac_sha512_spec(key, drbg_value_after(key, value, (n - 1) as nat)) }
}

/// Number of 64-byte output blocks needed for `len` bytes.
pub open spec fn blocks_for(len: nat) -> nat {
    ((len + 63) / 64) as nat
}

/// The `len` output bytes generated from (key, value): byte `i` is byte
/// `i % 64` of the chaining value after `i / 64 + 1` blocks.
pub open spec fn drbg_output(key: Seq<u8>, value: Seq<u8>, len: nat) -> Seq<u8> {
    Seq::new(len, |i: int| drbg_value_after(key, value, (i / 64 + 1) as nat)[i % 64])
}

/// The generator freshly instantiated from `seed`.
pub open spec fn drbg_instantiate(seed: Seq<u8>) -> DrbgView {
    let (k, v) = drbg_update(Seq::new(64, |i: int| 0u8), Seq::new(64, |i: int| 1u8), seed);
    DrbgView { key: k, value: v, requests: 0 }
}

/// The generator after serving a request for `len` bytes.
pub open spec fn drbg_after_generate(d: DrbgView, len: nat) -> DrbgView {
    let (k, v) = drbg_update(d.key, drbg_value_after(d.key, d.value, blocks_for(len)), Seq::empty());
    DrbgView { key: k, value: v, requests: (d.requests + 1) as u64 }
}

impl HmacDrbg {
    /// Instantiate the generator from `seed` (at most 96 bytes).
    pub fn new(seed: &[u8]) -> (d: Self)
        requires
            seed@.len() <= SEED_LEN,
        ensures
            d@ == drbg_instantiate(seed@),
    {
        let mut drbg = HmacDrbg { key: [0u8; 64], value: [1u8; 64], requests: 0 };
        assert(drbg.key@ =~= Seq::new(64, |i: int| 0u8));
        assert(drbg.value@ =~= Seq::new(64, |i: int| 1u8));
        drbg.update(seed);
        drbg
    }

    /// Mix `data` (at most 96 bytes) into the state.
    pub fn update(&mut self, data: &[u8])
        requires
            data@.len() <= SEED_LEN,
        ensures
            (final(self)@.key, final(self)@.value) == drbg_update(old(self)@.key, old(self)@.value, data@),
            final(self)@.requests == old(self)@.requests,
    {
        let mut material = [0u8; 161];
        self.fill_material(&mut material, 0u8, data);
        let n = 65 + data.len();
        self.key = hmac_sha512(&self.key, slice_prefix(&material, n));
        self.value = hmac_sha512(&self.key, &self.value);

        if data.len() > 0 {
            self.fill_material(&mut material, 1u8, data);
            self.key = hmac_sha512(&self.key, slice_prefix(&material, n));
            self.value = hmac_sha512(&self.key, &self.value);
        }

        zeroize_buf(&mut material);
    }

    /// Write `value || marker || data` at the start of `material`.
    fn fill_material(&self, material: &mut [u8; 161], marker: u8, data: &[u8])
        requires
            data@.len() <= SEED_LEN,
        ensures
            final(material)@.take(65 + data@.len() as int) == update_material(self.value@, marker, data@),
    {
        let mut i: usize = 0;
        while i < 64
            invariant
                i <= 64,
                forall|j: int| 0 <= j < i ==> material@[j] == self.value@[j],
            decreases 64 - i,
        {
            material[i] = self.value[i];
            i = i + 1;
        }
        material[64] = marker;
        let mut i: usize = 0;
        while i < data.len()
            invariant
                i <= data@.len(),
                data@.len() <= SEED_LEN,
                forall|j: int| 0 <= j < 64 ==> material@[j] == self.value@[j],
                material@[64] == marker,
                forall|j: int| 0 <= j < i ==> material@[65 + j] == data@[j],
            decreases data@.len() - i,
        {
            material[65 + i] = data[i];
            i = i + 1;
        }
        assert(material@.take(65 + data@.len() as int) =~= update_material(self.value@, marker, data@));
    }

    /// Fill `out` with generator output and update the state. Fails, leaving
    /// everything untouched, when the request counter would overflow.
    pub fn generate(&mut self, out: &mut [u8]) -> (r: Result<(), EntropyError>)
        ensures
            old(self)@.requests == u64::MAX ==> r == Err::<(), EntropyError>(EntropyError::RequestCounterExhausted)
                && final(self)@ == old(self)@ && final(out)@ == old(out)@,
            old(self)@.requests < u64::MAX ==> r is Ok
                && final(out)@ == drbg_output(old(self)@.key, old(self)@.value, old(out)@.len())
                && final(self)@ == drbg_after_generate(old(self)@, old(out)@.len()),
            // The first output block is HMAC(K, V) of the state before the request.
            old(self)@.requests < u64::MAX ==> forall|i: int| 0 <= i < old(out)@.len() && i < 64
                ==> #[trigger] final(out)@[i] == hmac_sha512_spec(old(self)@.key, old(self)@.value)[i],
            // Every later output block is HMAC(K, previous output block): the
            // blocks of one request form a fresh chain, none repeats its predecessor.
            old(self)@.requests < u64::MAX ==> forall|i: int| 64 <= i < old(out)@.len()
                ==> #[trigger] final(out)@[i] == hmac_sha512_spec(old(self)@.key,
                    final(out)@.subrange(64 * (i / 64) - 64, 64 * (i / 64)))[i % 64],
    {
        if self.requests == u64::MAX {
            return Err(EntropyError::RequestCounterExhausted);
        }
        self.requests = self.requests + 1;

        let ghost key0 = self.key@;
        let ghost value0 = self.value@;
        let len = out.len();
        let nblocks: usize = len / 64 + if len % 64 == 0 { 0 } else { 1 };
        assert(nblocks == blocks_for(len as nat)) by (nonlinear_arith)
            requires nblocks == len / 64 + if len % 64 == 0 { 0int } else { 1int };
        let mut b: usize = 0;
        while b < nblocks
            invariant
                len == out@.len(),
                out@.len() == old(out)@.len(),
                nblocks == blocks_for(len as nat),
                self.key@ == key0,
                self.requests == old(self).requests + 1,
                b <= nblocks,
                self.value@ == drbg_value_after(key0, value0, b as nat),
                forall|c: int| 1 <= c <= b ==> (#[trigger] drbg_value_after(key0, value0, c as nat)).len() == 64,
                forall|i: int| 0 <= i < len && i < 64 * b ==> out@[i] == drbg_value_after(key0, value0, (i / 64 + 1) as nat)[i % 64],
            decreases nblocks - b,
        {
            self.value = hmac_sha512(&self.key, &self.value);
            assert(64 * b < len) by (nonlinear_arith)
                requires b < nblocks, nblocks == (len + 63) / 64;
            let start = 64 * b;
            let take = if len - start < 64 { len - start } else { 64 };
            let mut j: usize = 0;
            while j < take
                invariant
                    len == out@.len(),
                    start == 64 * b,
                    start + take <= len,
                    take <= 64,
                    j <= take,
                    self.value@ == drbg_value_after(key0, value0, (b + 1) as nat),
                    forall|c: int| 1 <= c <= b ==> (#[trigger] drbg_value_after(key0, value0, c as nat)).len() == 64,
                    forall|i: int| 0 <= i < len && i < 64 * b ==> out@[i] == drbg_value_after(key0, value0, (i / 64 + 1) as nat)[i % 64],
                    forall|i: int| start <= i < start + j ==> out@[i] == self.value@[i - start],
                decreases take - j,
            {
                out[start + j] = self.value[j];
                j = j + 1;
            }
            assert forall|i: int| 0 <= i < len && i < 64 * (b + 1) implies out@[i] == drbg_value_after(key0, value0, (i / 64 + 1) as nat)[i % 64] by {
                if i >= start {
                    assert(i / 64 == b && i % 64 == i - start) by (nonlinear_arith)
                        requires start <= i < start + 64, start == 64 * b;
                }
            }
            b = b + 1;
        }
        assert(len <= 64 * nblocks) by (nonlinear_arith)
            requires nblocks == (len + 63) / 64;
        assert(out@ =~= drbg_output(key0, value0, len as nat));
        proof { lemma_output_chain(key0, value0, out@, nblocks as nat); }
        let empty: [u8; 0] = [];
        assert(empty@ =~= Seq::<u8>::empty());
        self.update(empty.as_slice());
        Ok(())
    }
}

/// The output blocks chain through HMAC: block 0 is HMAC(K, V) and each
/// later block is HMAC(K, the block before it), given that the chaining
/// values of the first `nblocks` blocks are 64 bytes long.
proof fn lemma_output_chain(key: Seq<u8>, value: Seq<u8>, out: Seq<u8>, nblocks: nat)
    requires
        out == drbg_output(key, value, out.len()),
        out.len() <= 64 * nblocks,
        forall|c: int| 1 <= c <= nblocks ==> (#[trigger] drbg_value_after(key, value, c as nat)).len() == 64,
    ensures
        forall|i: int| 0 <= i < out.len() && i < 64 ==> #[trigger] out[i] == hmac_sha512_spec(key, value)[i],
        forall|i: int| 64 <= i < out.len() ==> #[trigger] out[i] == hmac_sha512_spec(key,
            out.subrange(64 * (i / 64) - 64, 64 * (i / 64)))[i % 64],
{
    assert forall|i: int| 0 <= i < out.len() && i < 64 implies #[trigger] out[i] == hmac_sha512_spec(key, value)[i] by {
        assert(i / 64 == 0 && i % 64 == i) by (nonlinear_arith) requires 0 <= i < 64;
        assert(drbg_value_after(key, value, 0) == value);
    }
    assert forall|i: int| 64 <= i < out.len() implies #[trigger] out[i] == hmac_sha512_spec(key,
        out.subrange(64 * (i / 64) - 64, 64 * (i / 64)))[i % 64] by {
        let b: int = i / 64;
        assert(1 <= b && 64 * b <= i < 64 * b + 64 && i % 64 == i - 64 * b) by (nonlinear_arith)
            requires 64 <= i, b == i / 64;
        assert(b <= nblocks) by (nonlinear_arith)
            requires i < out.len(), out.len() <= 64 * nblocks, 64 * b <= i;
        let prev = drbg_value_after(key, value, (b - 1) as nat);
        let cur = drbg_value_after(key, value, b as nat);
        assert(cur.len() == 64);
        assert forall|k: int| 0 <= k < 64 implies out.subrange(64 * b - 64, 64 * b)[k] == cur[k] by {
            let t: int = 64 * b - 64 + k;
            assert(t / 64 == b - 1 && t % 64 == k) by (nonlinear_arith)
                requires t == 64 * b - 64 + k, 0 <= k < 64, b >= 1;
            assert(out[t] == drbg_value_after(key, value, (t / 64 + 1) as nat)[t % 64]);
        }
        assert(out.subrange(64 * b - 64, 64 * b) =~= cur);
        assert(drbg_value_after(key, value, (b + 1) as nat) == hmac_sha512_spec(key, cur));
    }
}

fn slice_prefix(a: &[u8; 161], n: usize) -> (s: &[u8])
    requires
        n <= 161,
    ensures
        s@ == a@.take(n as int),
{
    vstd::slice::slice_subrange(a.as_slice(), 0, n)
}

// ─── Start-up health check of the TRNG seed ────────────────────────

/// Word `w` (4 bytes) of a seed.
pub open spec fn seed_word(s: Seq<u8>, w: int) -> Seq<u8> {
    s.subrange(4 * w, 4 * w + 4)
}

/// The seed passes the start-up health check: not a single repeated byte,
/// no two consecutive equal 32-byte blocks, and no three consecutive equal
/// 4-byte words.
pub open spec fn seed_is_healthy(s: Seq<u8>) -> bool {
    &&& !(forall|i: int| 0 <= i < s.len() ==> #[trigger] s[i] == s[0])
    &&& s.subrange(0, 32) != s.subrange(32, 64)
    &&& s.subrange(32, 64) != s.subrange(64, 96)
    &&& !(exists|w: int| 0 <= w < 22 && #[trigger] seed_word(s, w) == seed_word(s, w + 1)
            && seed_word(s, w + 1) == seed_word(s, w + 2))
}

/// Three consecutive equal 4-byte words anywhere in a 96-byte seed (any of
/// the 22 windows over its 24 words) make it fail the health check.
pub proof fn lemma_three_equal_words_fail(s: Seq<u8>, w: int)
    requires
        s.len() == 96,
        0 <= w <= 21,
        s.subrange(4 * w, 4 * w + 4) == s.subrange(4 * w + 4, 4 * w + 8),
        s.subrange(4 * w + 4, 4 * w + 8) == s.subrange(4 * w + 8, 4 * w + 12),
    ensures
        !seed_is_healthy(s),
{
    assert(seed_word(s, w) == seed_word(s, w + 1) && seed_word(s, w + 1) == seed_word(s, w + 2));
}

/// A seed whose bytes are all equal, or whose first or last 32-byte block
/// repeats the middle one, fails the health check.
pub proof fn lemma_repeated_seed_fails(s: Seq<u8>)
    requires
        s.len() == 96,
        (forall|i: int| 0 <= i < 96 ==> #[trigger] s[i] == s[0])
            || s.subrange(0, 32) == s.subrange(32, 64)
            || s.subrange(32, 64) == s.subrange(64, 96),
    ensures
        !seed_is_healthy(s),
{
}

/// `a[i..i+n] == a[j..j+n]`.
fn ranges_equal(a: &[u8], i: usize, j: usize, n: usize) -> (r: bool)
    requires
        i + n <= a@.len(),
        j + n <= a@.len(),
    ensures
        r == (a@.subrange(i as int, i + n) == a@.subrange(j as int, j + n)),
{
    let ghost sa = a@.subrange(i as int, i + n);
    let ghost sb = a@.subrange(j as int, j + n);
    let alen = a.len();
    let mut k: usize = 0;
    while k < n
        invariant
            k <= n,
            i + n <= a@.len(),
            j + n <= a@.len(),
            sa == a@.subrange(i as int, i + n),
            sb == a@.subrange(j as int, j + n),
            alen == a@.len(),
            forall|t: int| 0 <= t < k ==> #[trigger] sa[t] == sb[t],
        decreases n - k,
    {
        if a[i + k] != a[j + k] {
            assert(sa[k as int] != sb[k as int]);
            return false;
        }
        k = k + 1;
    }
    assert(sa =~= sb);
    true
}

// ─── The seed's words ──────────────────────────────────────────────

/// `heapless::Vec`, the fixed-capacity vector that collects the seed's
/// 4-byte words for the health check.
#[verifier::external_type_specification]
#[verifier::external_body]
#[verifier::reject_recursive_types(T)]
pub struct ExHeaplessVec<T, const N: usize>(heapless::Vec<T, N>);

/// The words a word list holds, in order.
pub uninterp spec fn word_list(v: heapless::Vec<[u8; 4], 24>) -> Seq<[u8; 4]>;

/// `heapless::Vec::new`: an empty list.
#[verifier::external_body]
fn word_list_new() -> (v: heapless::Vec<[u8; 4], 24>)
    ensures
        word_list(v) == Seq::<[u8; 4]>::empty(),
{
    heapless::Vec::new()
}

/// `heapless::Vec::push`: appends the word unless the list holds 24
/// already, in which case the list is unchanged and `false` comes back.
#[verifier::external_body]
fn word_list_push(v: &mut heapless::Vec<[u8; 4], 24>, w: [u8; 4]) -> (ok: bool)
    ensures
        ok == (word_list(*old(v)).len() < 24),
        ok ==> word_list(*final(v)) == word_list(*old(v)).push(w),
        !ok ==> word_list(*final(v)) == word_list(*old(v)),
{
    v.push(w).is_ok()
}

/// `heapless::Vec::as_slice`: the words in order.
#[verifier::external_body]
fn word_list_slice(v: &heapless::Vec<[u8; 4], 24>) -> (s: &[[u8; 4]])
    ensures
        s@ == word_list(*v),
{
    v.as_slice()
}

/// The seed cut into its 4-byte words.
fn seed_words(seed: &[u8; 96]) -> (v: heapless::Vec<[u8; 4], 24>)
    ensures
        word_list(v).len() == 24,
        forall|w: int| 0 <= w < 24 ==> (#[trigger] word_list(v)[w])@ == seed_word(seed@, w),
{
    let mut v = word_list_new();
    let mut w: usize = 0;
    while w < 24
        invariant
            w <= 24,
            word_list(v).len() == w,
            forall|k: int| 0 <= k < w ==> (#[trigger] word_list(v)[k])@ == seed_word(seed@, k),
        decreases 24 - w,
    {
        let word = [seed[4 * w], seed[4 * w + 1], seed[4 * w + 2], seed[4 * w + 3]];
        assert(word@ =~= seed_word(seed@, w as int));
        let _ = word_list_push(&mut v, word);
        w = w + 1;
    }
    v
}

fn same_word(a: &[u8; 4], b: &[u8; 4]) -> (r: bool)
    ensures
        r == (a@ == b@),
{
    let r = a[0] == b[0] && a[1] == b[1] && a[2] == b[2] && a[3] == b[3];
    if r {
        assert(a@ =~= b@);
    }
    r
}

/// Start-up health test of the raw TRNG seed (see [`seed_is_healthy`]).
pub fn hardware_health_check(seed: &[u8; 96]) -> (ok: bool)
    ensures
        ok == seed_is_healthy(seed@),
{
    let s = seed.as_slice();
    let mut all_same = true;
    let mut i: usize = 0;
    while i < 96
        invariant
            s@ == seed@,
            i <= 96,
            all_same == (forall|t: int| 0 <= t < i ==> #[trigger] s@[t] == s@[0]),
        decreases 96 - i,
    {
        if s[i] != s[0] {
            all_same = false;
        }
        i = i + 1;
    }
    if all_same {
        return false;
    }
    if ranges_equal(s, 0, 32, 32) || ranges_equal(s, 32, 64, 32) {
        return false;
    }
    let words = seed_words(seed);
    let ws = word_list_slice(&words);
    let mut w: usize = 0;
    while w + 2 < ws.len()
        invariant
            ws@.len() == 24,
            forall|k: int| 0 <= k < 24 ==> (#[trigger] ws@[k])@ == seed_word(seed@, k),
            w <= 22,
            forall|v: int| 0 <= v < w ==> !(#[trigger] seed_word(seed@, v) == seed_word(seed@, v + 1)
                && seed_word(seed@, v + 1) == seed_word(seed@, v + 2)),
        decreases 24 - w,
    {
        if same_word(&ws[w], &ws[w + 1]) && same_word(&ws[w + 1], &ws[w + 2]) {
            assert(seed_word(seed@, w as int) == seed_word(seed@, w + 1) && seed_word(seed@, w + 1) == seed_word(seed@, w + 2));
            return false;
        }
        w = w + 1;
    }
    true
}

// ─── Boot self-tests ───────────────────────────────────────────────

/// The deterministic seed of the self-tests: bytes 0, 1, ..., 95.
pub open spec fn self_test_seed() -> Seq<u8> {
    Seq::new(96, |i: int| i as u8)
}

/// The first 64-byte block the self-test generator must produce.
pub open spec fn expected_first_block() -> Seq<u8> {
    seq![
        0x4cu8, 0xdfu8, 0xc1u8, 0x62u8, 0xb7u8, 0x4cu8, 0xc2u8, 0xd7u8, 0xb6u8, 0x23u8, 0x6au8, 0xffu8, 0x3cu8, 0x8cu8, 0x62u8, 0x68u8,
        0xedu8, 0xf8u8, 0xf8u8, 0xe2u8, 0x83u8, 0xdbu8, 0xdau8, 0x4bu8, 0x01u8, 0x4au8, 0x50u8, 0x39u8, 0x03u8, 0x29u8, 0x16u8, 0x63u8,
        0x49u8, 0x6fu8, 0x86u8, 0xceu8, 0xd5u8, 0xb9u8, 0x1au8, 0x7eu8, 0xd6u8, 0x1bu8, 0xbdu8, 0x24u8, 0x3du8, 0x56u8, 0x8du8, 0x19u8,
        0x49u8, 0xe3u8, 0x52u8, 0x04u8, 0x02u8, 0x6au8, 0x9bu8, 0x36u8, 0x56u8, 0xb7u8, 0x18u8, 0x25u8, 0xf9u8, 0x8fu8, 0x05u8, 0x96u8,
    ]
}

/// The second 64-byte block the self-test generator must produce.
pub open spec fn expected_second_block() -> Seq<u8> {
    seq![
        0xffu8, 0x16u8, 0xb2u8, 0x4du8, 0x2au8, 0xa4u8, 0x0au8, 0xfcu8, 0x29u8, 0x1fu8, 0xb9u8, 0x9bu8, 0x79u8, 0x14u8, 0xfeu8, 0x7cu8,
        0x2bu8, 0x93u8, 0x7du8, 0x2eu8, 0x9au8, 0x7fu8, 0x02u8, 0x2bu8, 0x41u8, 0xf8u8, 0x14u8, 0x7fu8, 0x8du8, 0x8eu8, 0x31u8, 0x58u8,
        0xb8u8, 0x74u8, 0x19u8, 0x58u8, 0xf1u8, 0x4eu8, 0x3bu8, 0x40u8, 0x15u8, 0xf9u8, 0x3bu8, 0xb5u8, 0x2au8, 0xb2u8, 0x1cu8, 0xd7u8,
        0x77u8, 0x25u8, 0x82u8, 0x66u8, 0x59u8, 0x57u8, 0xe0u8, 0xd6u8, 0x98u8, 0x54u8, 0x0bu8, 0xb6u8, 0x5du8, 0xe4u8, 0x22u8, 0x19u8,
    ]
}

/// The two 64-byte blocks produced by the self-test generator.
pub open spec fn self_test_blocks() -> (Seq<u8>, Seq<u8>) {
    let d0 = drbg_instantiate(self_test_seed());
    let d1 = drbg_after_generate(d0, 64);
    (drbg_output(d0.key, d0.value, 64), drbg_output(d1.key, d1.value, 64))
}

/// `a == b` byte for byte.
fn bytes_equal(a: &[u8], b: &[u8]) -> (r: bool)
    ensures
        r == (a@ == b@),
{
    if a.len() != b.len() {
        return false;
    }
    let mut i: usize = 0;
    while i < a.len()
        invariant
            a@.len() == b@.len(),
            i <= a@.len(),
            forall|t: int| 0 <= t < i ==> a@[t] == b@[t],
        decreases a@.len() - i,
    {
        if a[i] != b[i] {
            return false;
        }
        i = i + 1;
    }
    assert(a@ =~= b@);
    true
}

/// Deterministic boot-time tests for the DRBG and the start-up health check.
/// These use local state and never consume bytes from the live generator.
/// Returns (passed, total): the four health-check tests always pass, the two
/// generator tests pass exactly when the generator reproduces the expected blocks.
pub fn run_self_tests() -> (r: (u32, u32))
    ensures
        r.1 == 6,
        r.0 == 4 + (if self_test_blocks().0 == expected_first_block() { 1int } else { 0 })
            + (if self_test_blocks().1 == expected_second_block()
                && self_test_blocks().1 != self_test_blocks().0 { 1int } else { 0 }),
{
    let expected_first: [u8; 64] = [
        0x4cu8, 0xdfu8, 0xc1u8, 0x62u8, 0xb7u8, 0x4cu8, 0xc2u8, 0xd7u8, 0xb6u8, 0x23u8, 0x6au8, 0xffu8, 0x3cu8, 0x8cu8, 0x62u8, 0x68u8,
        0xedu8, 0xf8u8, 0xf8u8, 0xe2u8, 0x83u8, 0xdbu8, 0xdau8, 0x4bu8, 0x01u8, 0x4au8, 0x50u8, 0x39u8, 0x03u8, 0x29u8, 0x16u8, 0x63u8,
        0x49u8, 0x6fu8, 0x86u8, 0xceu8, 0xd5u8, 0xb9u8, 0x1au8, 0x7eu8, 0xd6u8, 0x1bu8, 0xbdu8, 0x24u8, 0x3du8, 0x56u8, 0x8du8, 0x19u8,
        0x49u8, 0xe3u8, 0x52u8, 0x04u8, 0x02u8, 0x6au8, 0x9bu8, 0x36u8, 0x56u8, 0xb7u8, 0x18u8, 0x25u8, 0xf9u8, 0x8fu8, 0x05u8, 0x96u8,
    ];
    let expected_second: [u8; 64] = [
        0xffu8, 0x16u8, 0xb2u8, 0x4du8, 0x2au8, 0xa4u8, 0x0au8, 0xfcu8, 0x29u8, 0x1fu8, 0xb9u8, 0x9bu8, 0x79u8, 0x14u8, 0xfeu8, 0x7cu8,
        0x2bu8, 0x93u8, 0x7du8, 0x2eu8, 0x9au8, 0x7fu8, 0x02u8, 0x2bu8, 0x41u8, 0xf8u8, 0x14u8, 0x7fu8, 0x8du8, 0x8eu8, 0x31u8, 0x58u8,
        0xb8u8, 0x74u8, 0x19u8, 0x58u8, 0xf1u8, 0x4eu8, 0x3bu8, 0x40u8, 0x15u8, 0xf9u8, 0x3bu8, 0xb5u8, 0x2au8, 0xb2u8, 0x1cu8, 0xd7u8,
        0x77u8, 0x25u8, 0x82u8, 0x66u8, 0x59u8, 0x57u8, 0xe0u8, 0xd6u8, 0x98u8, 0x54u8, 0x0bu8, 0xb6u8, 0x5du8, 0xe4u8, 0x22u8, 0x19u8,
    ];
    assert(expected_first@ =~= expected_first_block());
    assert(expected_second@ =~= expected_second_block());

    let mut passed = 0u32;
    let total = 6u32;

    let mut seed = [0u8; 96];
    let mut i: usize = 0;
    while i < 96
        invariant
            i <= 96,
            forall|t: int| 0 <= t < i ==> seed@[t] == t as u8,
        decreases 96 - i,
    {
        seed[i] = i as u8;
        i = i + 1;
    }
    assert(seed@ =~= self_test_seed());
    let mut drbg = HmacDrbg::new(seed.as_slice());
    let mut first = [0u8; 64];
    let mut second = [0u8; 64];
    let r1 = drbg.generate(&mut first);
    if r1.is_ok() && bytes_equal(first.as_slice(), expected_first.as_slice()) {
        passed = passed + 1;
    }
    let r2 = drbg.generate(&mut second);
    if r2.is_ok() && bytes_equal(second.as_slice(), expected_second.as_slice())
        && !bytes_equal(second.as_slice(), first.as_slice()) {
        passed = passed + 1;
    }
    assert(passed == (if self_test_blocks().0 == expected_first_block() { 1int } else { 0 })
        + (if self_test_blocks().1 == expected_second_block()
            && self_test_blocks().1 != self_test_blocks().0 { 1int } else { 0 }));

    proof { lemma_self_test_seed_healthy(seed@); }
    if hardware_health_check(&seed) {
        passed = passed + 1;
    }

    let constant = [0x55u8; 96];
    if !hardware_health_check(&constant) {
        passed = passed + 1;
    }

    let mut repeated_blocks = seed;
    let mut i: usize = 0;
    while i < 32
        invariant
            i <= 32,
            seed@ == self_test_seed(),
            forall|t: int| 0 <= t < 32 ==> repeated_blocks@[t] == seed@[t],
            forall|t: int| 32 <= t < 32 + i ==> repeated_blocks@[t] == seed@[t - 32],
            forall|t: int| 32 + i <= t < 96 ==> repeated_blocks@[t] == seed@[t],
        decreases 32 - i,
    {
        repeated_blocks[32 + i] = seed[i];
        i = i + 1;
    }
    assert(repeated_blocks@.subrange(0, 32) =~= repeated_blocks@.subrange(32, 64));
    if !hardware_health_check(&repeated_blocks) {
        passed = passed + 1;
    }

    let mut repeated_words = seed;
    let pattern: [u8; 12] = [1, 2, 3, 4, 1, 2, 3, 4, 1, 2, 3, 4];
    let mut i: usize = 0;
    while i < 12
        invariant
            i <= 12,
            forall|t: int| 0 <= t < i ==> repeated_words@[t] == pattern@[t],
        decreases 12 - i,
    {
        repeated_words[i] = pattern[i];
        i = i + 1;
    }
    assert(seed_word(repeated_words@, 0) =~= seed_word(repeated_words@, 1));
    assert(seed_word(repeated_words@, 1) =~= seed_word(repeated_words@, 2));
    if !hardware_health_check(&repeated_words) {
        passed = passed + 1;
    }

    zeroize_buf(&mut seed);
    zeroize_buf(&mut first);
    zeroize_buf(&mut second);
    zeroize_buf(&mut repeated_blocks);
    zeroize_buf(&mut repeated_words);

    (passed, total)
}

proof fn lemma_self_test_seed_healthy(s: Seq<u8>)
    requires
        s == self_test_seed(),
    ensures
        seed_is_healthy(s),
{
    assert(s[1] != s[0]);
    assert(s.subrange(0, 32)[0] != s.subrange(32, 64)[0]);
    assert(s.subrange(32, 64)[0] != s.subrange(64, 96)[0]);
    assert forall|w: int| 0 <= w < 22 implies !(#[trigger] seed_word(s, w) == seed_word(s, w + 1)
        && seed_word(s, w + 1) == seed_word(s, w + 2)) by {
        assert(seed_word(s, w)[0] != seed_word(s, w + 1)[0]);
    }
}

// ─── The central generator ─────────────────────────────────────────

/// The generator exists and can serve one more request.
pub open spec fn can_serve(p: Option<DrbgView>) -> bool {
    p matches Some(d) && d.requests < u64::MAX
}

/// Holder of the central generator: empty until initialized from a healthy seed.
pub struct EntropyPool {
    generator: Option<HmacDrbg>,
}

impl View for EntropyPool {
    type V = Option<DrbgView>;

    closed spec fn view(&self) -> Option<DrbgView> {
        match self.generator {
            Some(g) => Some(g@),
            None => None,
        }
    }
}

impl EntropyPool {
    /// An empty, uninitialized pool.
    pub fn new() -> (p: Self)
        ensures
            p@ is None,
    {
        EntropyPool { generator: None }
    }

    /// Is the generator initialized?
    pub fn is_initialized(&self) -> (b: bool)
        ensures
            b == self@ is Some,
    {
        self.generator.is_some()
    }

    /// Initialize the generator from the raw TRNG seed. Refuses a second
    /// initialization and a seed that fails the start-up health check.
    pub fn initialize(&mut self, seed: &[u8; 96]) -> (r: Result<(), EntropyError>)
        ensures
            old(self)@ is Some ==> r == Err::<(), EntropyError>(EntropyError::AlreadyInitialized)
                && final(self)@ == old(self)@,
            old(self)@ is None && !seed_is_healthy(seed@) ==>
                r == Err::<(), EntropyError>(EntropyError::HardwareHealthTestFailed) && final(self)@ is None,
            old(self)@ is None && seed_is_healthy(seed@) ==>
                r is Ok && final(self)@ == Some(drbg_instantiate(seed@)),
    {
        if self.generator.is_some() {
            return Err(EntropyError::AlreadyInitialized);
        }
        if !hardware_health_check(seed) {
            return Err(EntropyError::HardwareHealthTestFailed);
        }
        let generator = HmacDrbg::new(seed.as_slice());
        self.generator = Some(generator);
        Ok(())
    }

    /// Fill `out` with cryptographic random bytes. On every failure the
    /// destination is cleared and an explicit error is returned.
    pub fn fill(&mut self, out: &mut [u8]) -> (r: Result<(), EntropyError>)
        ensures
            final(out)@.len() == old(out)@.len(),
            r is Err ==> forall|i: int| 0 <= i < final(out)@.len() ==> final(out)@[i] == 0u8,
            old(self)@ is None ==> r == Err::<(), EntropyError>(EntropyError::NotInitialized)
                && final(self)@ == old(self)@,
            old(self)@ matches Some(d) ==> (d.requests == u64::MAX ==>
                r == Err::<(), EntropyError>(EntropyError::RequestCounterExhausted) && final(self)@ == old(self)@),
            old(self)@ matches Some(d) ==> (d.requests < u64::MAX ==> r is Ok
                && final(out)@ == drbg_output(d.key, d.value, old(out)@.len())
                && final(self)@ == Some(drbg_after_generate(d, old(out)@.len()))),
    {
        let result = match &mut self.generator {
            Some(g) => g.generate(out),
            None => Err(EntropyError::NotInitialized),
        };
        if result.is_err() {
            zeroize_buf(out);
        }
        result
    }
}

} // verus!
