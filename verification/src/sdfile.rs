//! SD card helpers: hex digits, 8.3 file names with auto-increment numbers,
//! the HD multisig descriptor format, and nonces for file encryption.

use vstd::prelude::*;
use crate::entropy::{EntropyPool, EntropyError, drbg_output};
use crate::hmac::{sha256, sha256_spec};

verus! {

// ─── Hex digits ────────────────────────────────────────────────────

/// The value of an ASCII hex digit (either case), or 0xFF when `c` is not one.
pub open spec fn hex_nibble_spec(c: u8) -> u8 {
    if 0x30 <= c <= 0x39 {
        (c - 0x30) as u8
    } else if 0x61 <= c <= 0x66 {
        (c - 0x61 + 10) as u8
    } else if 0x41 <= c <= 0x46 {
        (c - 0x41 + 10) as u8
    } else {
        0xFF
    }
}

/// `c` is an ASCII hex digit.
pub open spec fn is_hex_digit(c: u8) -> bool {
    hex_nibble_spec(c) != 0xFF
}

/// Convert a hex ASCII byte to a nibble (0-15). Returns 0xFF on invalid input.
pub fn hex_nibble(ch: u8) -> (v: u8)
    ensures
        v == hex_nibble_spec(ch),
        v == 0xFF || v < 16,
{
    if ch >= 0x30 && ch <= 0x39 {
        ch - 0x30
    } else if ch >= 0x61 && ch <= 0x66 {
        ch - 0x61 + 10
    } else if ch >= 0x41 && ch <= 0x46 {
        ch - 0x41 + 10
    } else {
        0xFF
    }
}

/// The bytes encoded by a string of hex digit pairs.
pub open spec fn hex_decode(s: Seq<u8>) -> Seq<u8> {
    Seq::new(s.len() / 2, |j: int| (hex_nibble_spec(s[2 * j]) * 16 + hex_nibble_spec(s[2 * j + 1])) as u8)
}

/// Every byte of `s` is a hex digit.
pub open spec fn all_hex(s: Seq<u8>) -> bool {
    forall|i: int| 0 <= i < s.len() ==> #[trigger] is_hex_digit(s[i])
}

// ─── 8.3 file names ────────────────────────────────────────────────

/// ASCII lower-case letters become upper case; other bytes stay.
pub open spec fn ascii_upper(c: u8) -> u8 {
    if 0x61 <= c <= 0x7a { (c - 32) as u8 } else { c }
}

/// The 8.3 name built from the first `min(len, 8)` bytes of `buf`, upper-cased
/// and space-padded, followed by the three extension bytes.
pub open spec fn filename_83_spec(buf: Seq<u8>, len: nat, ext: Seq<u8>) -> Seq<u8> {
    let n = if len < 8 { len as int } else { 8 };
    Seq::new(11, |j: int| if j < n { ascii_upper(buf[j]) } else if j < 8 { 0x20u8 } else { ext[j - 8] })
}

/// Build an 8.3 filename from a typed buffer with the given 3-byte extension.
/// Upper-cases the name portion for FAT32 compatibility.
pub fn build_filename_83(pp_buf: &[u8], pp_len: usize, ext: &[u8; 3]) -> (name: [u8; 11])
    requires
        (if pp_len < 8 { pp_len as int } else { 8 }) <= pp_buf@.len(),
    ensures
        name@ == filename_83_spec(pp_buf@, pp_len as nat, ext@),
{
    let mut name = [0x20u8; 11];
    let len = if pp_len < 8 { pp_len } else { 8 };
    let mut j: usize = 0;
    while j < len
        invariant
            len <= 8,
            len <= pp_buf@.len(),
            j <= len,
            len == (if pp_len < 8 { pp_len as int } else { 8 }),
            forall|t: int| 0 <= t < j ==> name@[t] == ascii_upper(pp_buf@[t]),
            forall|t: int| j <= t < 11 ==> name@[t] == 0x20u8,
        decreases len - j,
    {
        let c = pp_buf[j];
        name[j] = if c >= 0x61 && c <= 0x7a { c - 32 } else { c };
        j = j + 1;
    }
    name[8] = ext[0];
    name[9] = ext[1];
    name[10] = ext[2];
    assert(name@ =~= filename_83_spec(pp_buf@, pp_len as nat, ext@));
    name
}

/// An 8.3 name is 11 bytes: the typed name cut to 8 bytes, with no ASCII
/// lower-case letter left in it (each byte kept or lifted to upper case),
/// padded with spaces, then the extension; a name typed in upper case and
/// digits appears unchanged.
pub proof fn lemma_filename_83_shape(buf: Seq<u8>, len: nat, ext: Seq<u8>)
    requires
        ext.len() == 3,
    ensures
        ({
            let name = filename_83_spec(buf, len, ext);
            let n: int = if len < 8 { len as int } else { 8 };
            &&& name.len() == 11
            &&& name.subrange(8, 11) == ext
            &&& forall|j: int| 0 <= j < 8 ==> !(0x61 <= #[trigger] name[j] <= 0x7a)
            &&& forall|j: int| n <= j < 8 ==> #[trigger] name[j] == 0x20u8
            &&& forall|j: int| 0 <= j < n && !(0x61 <= buf[j] <= 0x7a) ==> #[trigger] name[j] == buf[j]
            &&& forall|j: int| 0 <= j < n && 0x61 <= buf[j] <= 0x7a ==> #[trigger] name[j] == buf[j] - 32
        }),
{
    let name = filename_83_spec(buf, len, ext);
    assert(name.subrange(8, 11) =~= ext);
}

/// 10^p.
pub open spec fn pow10(p: nat) -> nat
    decreases p,
{
    if p == 0 { 1 } else { 10 * pow10((p - 1) as nat) }
}

/// Decimal digit `p` (0 = units) of `num`.
pub open spec fn decimal_digit(num: nat, p: nat) -> nat {
    (num / pow10(p)) % 10
}

/// The 8.3 name `prefix(2) + six zero-padded decimal digits of num + ext(3)`;
/// only the six lowest digits of `num` appear.
pub open spec fn auto_name_spec(prefix: Seq<u8>, num: nat, ext: Seq<u8>) -> Seq<u8> {
    Seq::new(11, |j: int|
        if j < 2 { prefix[j] } else if j < 8 { (0x30 + decimal_digit(num, (7 - j) as nat)) as u8 } else { ext[j - 8] })
}

/// Format an auto-increment number into an 8.3 name: prefix(2) +
/// zero-padded digits(6) + ext(3).
pub fn format_auto_name(prefix: &[u8; 2], num: u32, ext: &[u8; 3]) -> (name: [u8; 11])
    ensures
        name@ == auto_name_spec(prefix@, num as nat, ext@),
{
    let mut name = [0x30u8; 11];
    name[0] = prefix[0];
    name[1] = prefix[1];
    let mut val = num;
    let mut k: usize = 8;
    assert(pow10(0) == 1);
    assert(num as nat / 1 == num as nat) by (nonlinear_arith);
    assert(num as nat / pow10((8 - k) as nat) == num as nat);
    while k > 2
        invariant
            2 <= k <= 8,
            name@.len() == 11,
            name@[0] == prefix@[0],
            name@[1] == prefix@[1],
            val as nat == num as nat / pow10((8 - k) as nat),
            forall|t: int| k <= t < 8 ==> name@[t] == (0x30 + decimal_digit(num as nat, (7 - t) as nat)) as u8,
        decreases k,
    {
        k = k - 1;
        proof { lemma_digit_step(num as nat, (7 - k) as nat); }
        name[k] = 0x30 + (val % 10) as u8;
        val = val / 10;
    }
    name[8] = ext[0];
    name[9] = ext[1];
    name[10] = ext[2];
    assert(name@ =~= auto_name_spec(prefix@, num as nat, ext@));
    name
}

proof fn lemma_pow10_pos(p: nat)
    ensures
        pow10(p) >= 1,
    decreases p,
{
    if p > 0 {
        lemma_pow10_pos((p - 1) as nat);
    }
}

proof fn lemma_digit_step(num: nat, p: nat)
    ensures
        num / pow10(p) / 10 == num / pow10(p + 1),
        decimal_digit(num, p) == (num / pow10(p)) % 10,
{
    lemma_pow10_pos(p);
    assert(pow10(p + 1) == 10 * pow10(p));
    vstd::arithmetic::div_mod::lemma_div_denominator(num as int, pow10(p) as int, 10);
    assert(pow10(p) * 10 == 10 * pow10(p)) by (nonlinear_arith);
}

// ─── Auto-increment numbers ────────────────────────────────────────

/// `c` is an ASCII decimal digit.
pub open spec fn is_decimal_digit(c: u8) -> bool {
    0x30 <= c <= 0x39
}

/// Number of consecutive decimal digits in `name` from position `k` up to 8.
pub open spec fn digit_run_from(name: Seq<u8>, k: int) -> nat
    decreases 8 - k,
{
    if k >= 8 || k < 0 || !is_decimal_digit(name[k]) { 0 } else { 1 + digit_run_from(name, k + 1) }
}

/// The decimal value of a string of ASCII digits.
pub open spec fn decimal_value(s: Seq<u8>) -> nat
    decreases s.len(),
{
    if s.len() == 0 { 0 } else { decimal_value(s.drop_last()) * 10 + (s.last() - 0x30) as nat }
}

/// The number of an auto-numbered 8.3 name: the name must carry the prefix
/// and extension, and positions 2..8 must be decimal digits, optionally cut
/// short by a space.
pub open spec fn auto_number_spec(name: Seq<u8>, prefix: Seq<u8>, ext: Seq<u8>) -> Option<nat> {
    let d = digit_run_from(name, 2) as int;
    if name[0] == prefix[0] && name[1] == prefix[1] && name[8] == ext[0] && name[9] == ext[1]
        && name[10] == ext[2] && (d == 6 || name[2 + d] == 0x20u8) {
        Some(decimal_value(name.subrange(2, 2 + d)))
    } else {
        None
    }
}

proof fn lemma_digit_run_bound(name: Seq<u8>, k: int)
    requires
        2 <= k <= 8,
    ensures
        digit_run_from(name, k) <= 8 - k,
        forall|t: int| k <= t < k + digit_run_from(name, k) ==> #[trigger] is_decimal_digit(name[t]),
    decreases 8 - k,
{
    if k < 8 && is_decimal_digit(name[k]) {
        lemma_digit_run_bound(name, k + 1);
    }
}

proof fn lemma_decimal_value_bound(s: Seq<u8>)
    requires
        forall|t: int| 0 <= t < s.len() ==> #[trigger] is_decimal_digit(s[t]),
    ensures
        decimal_value(s) < pow10(s.len()),
    decreases s.len(),
{
    if s.len() > 0 {
        let p = s.drop_last();
        assert forall|t: int| 0 <= t < p.len() implies #[trigger] is_decimal_digit(p[t]) by {
            assert(p[t] == s[t]);
        }
        lemma_decimal_value_bound(p);
        let a = decimal_value(p);
        let b = pow10(p.len());
        assert(s.last() == s[s.len() - 1]);
        assert(is_decimal_digit(s[s.len() - 1]));
        assert(a * 10 + (s.last() - 0x30) < 10 * b) by (nonlinear_arith)
            requires a < b, 0 <= s.last() - 0x30 <= 9;
    }
}

/// The number of an auto-numbered file name, when it matches the pattern
/// `prefix + digits + ext`.
pub fn auto_increment_number(name: &[u8; 11], prefix: &[u8; 2], ext: &[u8; 3]) -> (r: Option<u32>)
    ensures
        r matches Some(n) ==> auto_number_spec(name@, prefix@, ext@) == Some(n as nat),
        r is None ==> auto_number_spec(name@, prefix@, ext@) is None,
        r matches Some(n) ==> n < 1000000,
{
    if !(name[0] == prefix[0] && name[1] == prefix[1] && name[8] == ext[0] && name[9] == ext[1]
        && name[10] == ext[2]) {
        return None;
    }
    proof { lemma_digit_run_bound(name@, 2); }
    let ghost d = digit_run_from(name@, 2);
    assert(name@.subrange(2, 2) =~= Seq::<u8>::empty());
    assert(pow10(0) == 1);
    let mut n: u32 = 0;
    let mut k: usize = 2;
    while k < 8
        invariant_except_break
            2 <= k <= 8,
            d == (k - 2) + digit_run_from(name@, k as int),
            d == digit_run_from(name@, 2),
            name@[0] == prefix@[0] && name@[1] == prefix@[1] && name@[8] == ext@[0]
                && name@[9] == ext@[1] && name@[10] == ext@[2],
            forall|t: int| 2 <= t < k ==> #[trigger] is_decimal_digit(name@[t]),
            n as nat == decimal_value(name@.subrange(2, k as int)),
            n < pow10((k - 2) as nat),
            pow10((k - 2) as nat) <= 1000000,
        ensures
            2 <= k <= 8,
            n as nat == decimal_value(name@.subrange(2, k as int)),
            n < 1000000,
            d == k - 2,
            k == 8 || name@[k as int] == 0x20u8,
        decreases 8 - k,
    {
        let c = name[k];
        assert(c == name@[k as int]);
        proof {
            lemma_pow10_small((k - 2) as nat);
            lemma_pow10_small((k - 1) as nat);
        }
        if c >= 0x30 && c <= 0x39 {
            proof {
                let s1 = name@.subrange(2, k + 1);
                assert(s1.drop_last() =~= name@.subrange(2, k as int));
                assert(pow10((k + 1 - 2) as nat) == 10 * pow10((k - 2) as nat));
                assert(n * 10 + (c - 0x30) < 10 * pow10((k - 2) as nat)) by (nonlinear_arith)
                    requires n < pow10((k - 2) as nat), 0 <= c - 0x30 <= 9;
            }
            n = n * 10 + (c - 0x30) as u32;
            k = k + 1;
        } else if c == 0x20 {
            break;
        } else {
            assert(digit_run_from(name@, k as int) == 0);
            assert(name@[2 + d as int] != 0x20u8);
            return None;
        }
    }
    Some(n)
}

proof fn lemma_pow10_small(p: nat)
    requires
        p <= 6,
    ensures
        pow10(p) <= 1000000,
{
    reveal_with_fuel(pow10, 7);
}

proof fn lemma_digit_run_prefix(name: Seq<u8>, k0: int, k: int)
    requires
        2 <= k0 <= k <= 8,
        forall|t: int| k0 <= t < k ==> #[trigger] is_decimal_digit(name[t]),
    ensures
        digit_run_from(name, k0) == (k - k0) + digit_run_from(name, k),
    decreases k - k0,
{
    if k0 < k {
        assert(is_decimal_digit(name[k0]));
        lemma_digit_run_prefix(name, k0 + 1, k);
    }
}

/// The largest auto-increment number among `names` that match the pattern
/// (0 when none does).
pub open spec fn max_auto_number(names: Seq<[u8; 11]>, prefix: Seq<u8>, ext: Seq<u8>) -> nat
    decreases names.len(),
{
    if names.len() == 0 {
        0
    } else {
        let m = max_auto_number(names.drop_last(), prefix, ext);
        match auto_number_spec(names.last()@, prefix, ext) {
            Some(n) => if n > m { n } else { m },
            None => m,
        }
    }
}

/// The next free auto-increment number: one more than the largest number
/// among the directory entries `names` of the form `prefix + digits + ext`.
pub fn next_auto_number(names: &[[u8; 11]], prefix: &[u8; 2], ext: &[u8; 3]) -> (n: u32)
    ensures
        n == max_auto_number(names@, prefix@, ext@) + 1,
{
    let mut max_num: u32 = 0;
    let mut i: usize = 0;
    while i < names.len()
        invariant
            i <= names@.len(),
            max_num as nat == max_auto_number(names@.take(i as int), prefix@, ext@),
            max_num < 1000000,
        decreases names@.len() - i,
    {
        assert(names@.take(i + 1).drop_last() =~= names@.take(i as int));
        assert(names@.take(i + 1).last() == names@[i as int]);
        if let Some(n) = auto_increment_number(&names[i], prefix, ext) {
            if n > max_num {
                max_num = n;
            }
        }
        i = i + 1;
    }
    assert(names@.take(names@.len() as int) =~= names@);
    max_num + 1
}

// ─── Laws of the auto-numbered names ───────────────────────────────

proof fn lemma_auto_name_digits(prefix: Seq<u8>, num: nat, ext: Seq<u8>, j: int)
    requires
        prefix.len() == 2,
        ext.len() == 3,
        0 <= j <= 6,
        num < 1000000,
    ensures
        decimal_value(auto_name_spec(prefix, num, ext).subrange(2, 2 + j)) == num / pow10((6 - j) as nat),
    decreases j,
{
    let name = auto_name_spec(prefix, num, ext);
    if j == 0 {
        assert(name.subrange(2, 2) =~= Seq::<u8>::empty());
        reveal_with_fuel(pow10, 7);
        assert(pow10(6) == 1000000);
        assert(num / 1000000 == 0) by (nonlinear_arith)
            requires num < 1000000;
    } else {
        lemma_auto_name_digits(prefix, num, ext, j - 1);
        let s = name.subrange(2, 2 + j);
        assert(s.drop_last() =~= name.subrange(2, 2 + j - 1));
        let p = (6 - j) as nat;
        lemma_digit_step(num, p);
        let q = num / pow10(p);
        assert(s.last() == name[2 + j - 1]);
        assert(name[1 + j] == (0x30 + decimal_digit(num, (7 - (1 + j)) as nat)) as u8);
        assert(decimal_digit(num, p) == q % 10);
        assert((q / 10) * 10 + q % 10 == q) by (nonlinear_arith);
    }
}

/// Reading back the number of a formatted auto-increment name gives the
/// number that was formatted (for numbers of at most six digits).
pub proof fn lemma_auto_name_roundtrip(prefix: Seq<u8>, num: nat, ext: Seq<u8>)
    requires
        prefix.len() == 2,
        ext.len() == 3,
        num < 1000000,
    ensures
        auto_number_spec(auto_name_spec(prefix, num, ext), prefix, ext) == Some(num),
{
    let name = auto_name_spec(prefix, num, ext);
    assert forall|t: int| 2 <= t < 8 implies #[trigger] is_decimal_digit(name[t]) by {
        assert(decimal_digit(num, (7 - t) as nat) < 10);
    }
    lemma_digit_run_prefix(name, 2, 8);
    lemma_auto_name_digits(prefix, num, ext, 6);
    assert(pow10(0) == 1);
    assert(num / 1 == num) by (nonlinear_arith);
}

/// Every listed name of the pattern carries a number no larger than the
/// maximum.
pub proof fn lemma_max_auto_number_bounds(names: Seq<[u8; 11]>, prefix: Seq<u8>, ext: Seq<u8>, i: int)
    requires
        0 <= i < names.len(),
    ensures
        auto_number_spec(names[i]@, prefix, ext) matches Some(v) ==> v <= max_auto_number(names, prefix, ext),
    decreases names.len(),
{
    if i < names.len() - 1 {
        lemma_max_auto_number_bounds(names.drop_last(), prefix, ext, i);
        assert(names.drop_last()[i] == names[i]);
    }
}

/// The maximum is one of the listed numbers, unless it is 0.
proof fn lemma_max_auto_number_attained(names: Seq<[u8; 11]>, prefix: Seq<u8>, ext: Seq<u8>)
    ensures
        max_auto_number(names, prefix, ext) > 0 ==> exists|i: int| 0 <= i < names.len()
            && #[trigger] auto_number_spec(names[i]@, prefix, ext) == Some(max_auto_number(names, prefix, ext)),
    decreases names.len(),
{
    if names.len() > 0 {
        let init = names.drop_last();
        lemma_max_auto_number_attained(init, prefix, ext);
        let m = max_auto_number(init, prefix, ext);
        if max_auto_number(names, prefix, ext) > 0 {
            if max_auto_number(names, prefix, ext) == m {
                let i = choose|i: int| 0 <= i < init.len() && #[trigger] auto_number_spec(init[i]@, prefix, ext) == Some(m);
                assert(init[i] == names[i]);
                assert(auto_number_spec(names[i]@, prefix, ext) == Some(max_auto_number(names, prefix, ext)));
            } else {
                let last = names.len() - 1;
                assert(names[last] == names.last());
                assert(auto_number_spec(names[last]@, prefix, ext) == Some(max_auto_number(names, prefix, ext)));
            }
        }
    }
}

/// The next auto-increment number is the largest number the listing
/// carries in names of the pattern, plus one (1 when there is none): every
/// listed number is below it, and, past 1, the number one below it is listed.
pub proof fn lemma_next_number_is_max_plus_one(names: Seq<[u8; 11]>, prefix: Seq<u8>, ext: Seq<u8>)
    ensures
        forall|i: int| 0 <= i < names.len() ==> (#[trigger] auto_number_spec(names[i]@, prefix, ext) matches Some(v)
            ==> v < max_auto_number(names, prefix, ext) + 1),
        max_auto_number(names, prefix, ext) + 1 > 1 ==> exists|i: int| 0 <= i < names.len()
            && #[trigger] auto_number_spec(names[i]@, prefix, ext) == Some(max_auto_number(names, prefix, ext)),
{
    assert forall|i: int| 0 <= i < names.len() implies (#[trigger] auto_number_spec(names[i]@, prefix, ext) matches Some(v)
        ==> v < max_auto_number(names, prefix, ext) + 1) by {
        lemma_max_auto_number_bounds(names, prefix, ext, i);
    }
    lemma_max_auto_number_attained(names, prefix, ext);
}

/// A freshly numbered file name never collides with a listed name: the name
/// formatted from `next_auto_number` differs from every entry of the
/// directory listing it was computed from (while the number fits six digits).
pub proof fn lemma_next_auto_name_is_fresh(names: Seq<[u8; 11]>, prefix: Seq<u8>, ext: Seq<u8>)
    requires
        prefix.len() == 2,
        ext.len() == 3,
        max_auto_number(names, prefix, ext) + 1 < 1000000,
    ensures
        forall|i: int| 0 <= i < names.len() ==>
            #[trigger] names[i]@ != auto_name_spec(prefix, max_auto_number(names, prefix, ext) + 1, ext),
{
    let next = max_auto_number(names, prefix, ext) + 1;
    lemma_auto_name_roundtrip(prefix, next, ext);
    assert forall|i: int| 0 <= i < names.len() implies
        #[trigger] names[i]@ != auto_name_spec(prefix, next, ext) by {
        lemma_max_auto_number_bounds(names, prefix, ext, i);
    }
}

// ─── Directory listings ────────────────────────────────────────────

/// Which entries of a listing count as hidden.
#[derive(Debug, Clone, Copy, PartialEq, Eq, Structural)]
pub enum HiddenRule {
    /// None: every entry is shown.
    ShowAll,
    /// Names starting with '.' and deleted entries (first byte 0xE5).
    DotOrDeleted,
    /// As `DotOrDeleted`, and names starting with '_'.
    DotDeletedOrUnderscore,
}

/// One entry of the root directory: its 8.3 name, size and kind.
#[derive(Clone, Copy)]
pub struct DirEntryInfo {
    pub name: [u8; 11],
    pub size: u32,
    pub is_dir: bool,
}

/// The entry with this name is hidden under `rule`.
pub open spec fn entry_hidden(name: [u8; 11], rule: HiddenRule) -> bool {
    match rule {
        HiddenRule::ShowAll => false,
        HiddenRule::DotOrDeleted => name[0] == 0x2e || name[0] == 0xe5,
        HiddenRule::DotDeletedOrUnderscore => name[0] == 0x2e || name[0] == 0xe5 || name[0] == 0x5f,
    }
}

/// The name's extension is `ext`.
pub open spec fn has_ext(name: [u8; 11], ext: [u8; 3]) -> bool {
    name[8] == ext[0] && name[9] == ext[1] && name[10] == ext[2]
}

/// An entry a listing shows: a visible, non-empty file no larger than
/// `max_size` (when given) whose extension is one of `exts` (any extension
/// when `exts` is empty).
pub open spec fn entry_listed(e: DirEntryInfo, exts: Seq<[u8; 3]>, rule: HiddenRule, max_size: Option<u32>) -> bool {
    &&& !e.is_dir
    &&& e.size > 0
    &&& (max_size matches Some(m) ==> e.size <= m)
    &&& !entry_hidden(e.name, rule)
    &&& (exts.len() == 0 || exists|k: int| 0 <= k < exts.len() && #[trigger] has_ext(e.name, exts[k]))
}

/// The names a listing shows, in directory order, stopping at `cap` names.
pub open spec fn listed_names(entries: Seq<DirEntryInfo>, exts: Seq<[u8; 3]>, rule: HiddenRule, max_size: Option<u32>, cap: nat) -> Seq<[u8; 11]>
    decreases entries.len(),
{
    if entries.len() == 0 {
        Seq::empty()
    } else {
        let prev = listed_names(entries.drop_last(), exts, rule, max_size, cap);
        if prev.len() < cap && entry_listed(entries.last(), exts, rule, max_size) {
            prev.push(entries.last().name)
        } else {
            prev
        }
    }
}

/// Entry `k` of a directory may be shown: a non-empty file within the size
/// limit, not hidden, whose extension is accepted.
pub open spec fn showable(entries: Seq<DirEntryInfo>, k: int, exts: Seq<[u8; 3]>, rule: HiddenRule, max_size: Option<u32>) -> bool {
    let e = entries[k];
    &&& 0 <= k < entries.len()
    &&& !e.is_dir
    &&& e.size > 0
    &&& (max_size matches Some(m) ==> e.size <= m)
    &&& !entry_hidden(e.name, rule)
    &&& (exts.len() == 0 || exists|x: int| 0 <= x < exts.len() && #[trigger] exts[x] == [e.name[8], e.name[9], e.name[10]])
}

/// A listing shows at most `cap` names and no more names than the directory
/// has entries; every name shown is that of an entry that may be shown, and
/// a directory without such entries lists nothing.
pub proof fn lemma_listed_names_sound(entries: Seq<DirEntryInfo>, exts: Seq<[u8; 3]>, rule: HiddenRule,
    max_size: Option<u32>, cap: nat)
    ensures
        listed_names(entries, exts, rule, max_size, cap).len() <= cap,
        listed_names(entries, exts, rule, max_size, cap).len() <= entries.len(),
        forall|i: int| #![trigger listed_names(entries, exts, rule, max_size, cap)[i]]
            0 <= i < listed_names(entries, exts, rule, max_size, cap).len() ==> exists|k: int| #[trigger] showable(entries, k, exts, rule, max_size)
                && entries[k].name == listed_names(entries, exts, rule, max_size, cap)[i],
        (forall|k: int| 0 <= k < entries.len() ==> !#[trigger] showable(entries, k, exts, rule, max_size))
            ==> listed_names(entries, exts, rule, max_size, cap).len() == 0,
    decreases entries.len(),
{
    if entries.len() > 0 {
        let rest = entries.drop_last();
        let last = entries.len() - 1;
        lemma_listed_names_sound(rest, exts, rule, max_size, cap);
        let prev = listed_names(rest, exts, rule, max_size, cap);
        let names = listed_names(entries, exts, rule, max_size, cap);
        assert forall|k: int| #[trigger] showable(rest, k, exts, rule, max_size) implies showable(entries, k, exts, rule, max_size) by {
            assert(rest[k] == entries[k]);
        }
        assert(entry_listed(entries.last(), exts, rule, max_size) ==> showable(entries, last, exts, rule, max_size)) by {
            if entry_listed(entries.last(), exts, rule, max_size) && exts.len() > 0 {
                let e = entries.last();
                let x = choose|x: int| 0 <= x < exts.len() && #[trigger] has_ext(e.name, exts[x]);
                assert(exts[x] == [e.name[8], e.name[9], e.name[10]]);
            }
        }
        assert forall|i: int| #![trigger names[i]] 0 <= i < names.len() implies
            exists|k: int| #[trigger] showable(entries, k, exts, rule, max_size) && entries[k].name == names[i] by {
            if i < prev.len() {
                let k = choose|k: int| #[trigger] showable(rest, k, exts, rule, max_size) && rest[k].name == prev[i];
                assert(showable(entries, k, exts, rule, max_size));
            } else {
                assert(showable(entries, last, exts, rule, max_size));
            }
        }
        if forall|k: int| 0 <= k < entries.len() ==> !#[trigger] showable(entries, k, exts, rule, max_size) {
            assert forall|k: int| 0 <= k < rest.len() implies !#[trigger] showable(rest, k, exts, rule, max_size) by {
                if showable(rest, k, exts, rule, max_size) {
                    assert(showable(entries, k, exts, rule, max_size));
                }
            }
            assert(!showable(entries, last, exts, rule, max_size));
        }
    }
}

fn ext_in(name: &[u8; 11], exts: &[[u8; 3]]) -> (found: bool)
    ensures
        found == exists|k: int| 0 <= k < exts@.len() && #[trigger] has_ext(*name, exts@[k]),
{
    let mut k: usize = 0;
    while k < exts.len()
        invariant
            k <= exts@.len(),
            forall|j: int| 0 <= j < k ==> !#[trigger] has_ext(*name, exts@[j]),
        decreases exts@.len() - k,
    {
        let e = exts[k];
        if name[8] == e[0] && name[9] == e[1] && name[10] == e[2] {
            assert(has_ext(*name, exts@[k as int]));
            return true;
        }
        k = k + 1;
    }
    false
}

/// The entry is one a listing shows (see [`entry_listed`]).
pub fn is_listed(e: &DirEntryInfo, exts: &[[u8; 3]], rule: HiddenRule, max_size: Option<u32>) -> (b: bool)
    ensures
        b == entry_listed(*e, exts@, rule, max_size),
{
    if e.is_dir || e.size == 0 {
        return false;
    }
    if let Some(m) = max_size {
        if e.size > m {
            return false;
        }
    }
    let first = e.name[0];
    let hidden = match rule {
        HiddenRule::ShowAll => false,
        HiddenRule::DotOrDeleted => first == 0x2e || first == 0xe5,
        HiddenRule::DotDeletedOrUnderscore => first == 0x2e || first == 0xe5 || first == 0x5f,
    };
    if hidden {
        return false;
    }
    exts.len() == 0 || ext_in(&e.name, exts)
}

/// The names a listing of `entries` shows (see [`listed_names`]).
pub fn list_files(entries: &[DirEntryInfo], exts: &[[u8; 3]], rule: HiddenRule, max_size: Option<u32>, cap: usize) -> (names: Vec<[u8; 11]>)
    ensures
        names@ == listed_names(entries@, exts@, rule, max_size, cap as nat),
        names@.len() <= cap,
{
    let mut out: Vec<[u8; 11]> = Vec::new();
    let mut i: usize = 0;
    while i < entries.len()
        invariant
            i <= entries@.len(),
            out@ == listed_names(entries@.take(i as int), exts@, rule, max_size, cap as nat),
            out@.len() <= cap,
        decreases entries@.len() - i,
    {
        proof {
            assert(entries@.take(i as int + 1).drop_last() =~= entries@.take(i as int));
        }
        if out.len() < cap && is_listed(&entries[i], exts, rule, max_size) {
            out.push(entries[i].name);
        }
        i = i + 1;
    }
    proof {
        assert(entries@.take(entries@.len() as int) =~= entries@);
    }
    out
}

// ─── Keys read from files ──────────────────────────────────────────

/// A raw private key written as 64 hex digits: the key when every digit is
/// valid.
pub fn parse_hex_key(d: &[u8]) -> (k: Option<[u8; 32]>)
    requires
        64 <= d@.len(),
    ensures
        k is Some == all_hex(d@.take(64)),
        k matches Some(key) ==> key@ == hex_decode(d@.take(64)),
{
    let mut key = [0u8; 32];
    let mut j: usize = 0;
    while j < 32
        invariant
            j <= 32,
            64 <= d@.len(),
            forall|i: int| 0 <= i < 2 * j ==> #[trigger] is_hex_digit(d@[i]),
            forall|i: int| 0 <= i < j ==> key@[i] == hex_decode(d@.take(64))[i],
        decreases 32 - j,
    {
        let hi = hex_nibble(d[2 * j]);
        let lo = hex_nibble(d[2 * j + 1]);
        if hi == 0xFF || lo == 0xFF {
            proof {
                let bad: int = if hi == 0xFF { 2 * j as int } else { 2 * j as int + 1 };
                assert(!is_hex_digit(d@.take(64)[bad]));
            }
            return None;
        }
        key[j] = hi * 16 + lo;
        j = j + 1;
    }
    proof {
        assert forall|i: int| 0 <= i < 64 implies #[trigger] is_hex_digit(d@.take(64)[i]) by {
            assert(is_hex_digit(d@[i]));
        }
        assert(key@ =~= hex_decode(d@.take(64)));
    }
    Some(key)
}

/// The fingerprint under which an imported extended key is stored: the
/// first four bytes of the SHA-256 of its private key.
pub fn key_fingerprint(privkey: &[u8; 32]) -> (fp: [u8; 4])
    ensures
        fp@ == sha256_spec(privkey@).take(4),
{
    let h = sha256(privkey);
    let fp = [h[0], h[1], h[2], h[3]];
    assert(fp@ =~= sha256_spec(privkey@).take(4));
    fp
}

/// The seed-slot fields that hold an imported extended key's 65-byte raw
/// form: the word indices take the first 32 bytes as 16 little-endian pairs
/// (the other eight indices stay 0), the passphrase field the other 33.
pub fn xprv_slot_fields(raw: &[u8; 65]) -> (r: ([u16; 24], [u8; 33]))
    ensures
        forall|j: int| 0 <= j < 16 ==> #[trigger] r.0@[j] == raw@[2 * j] + 256 * raw@[2 * j + 1],
        forall|j: int| 16 <= j < 24 ==> #[trigger] r.0@[j] == 0,
        r.1@ == raw@.skip(32),
{
    let mut idx = [0u16; 24];
    let mut j: usize = 0;
    while j < 16
        invariant
            j <= 16,
            forall|i: int| 0 <= i < j ==> #[trigger] idx@[i] == raw@[2 * i] + 256 * raw@[2 * i + 1],
            forall|i: int| j <= i < 24 ==> #[trigger] idx@[i] == 0,
        decreases 16 - j,
    {
        idx[j] = (raw[2 * j] as u16) + (raw[2 * j + 1] as u16) * 256;
        j = j + 1;
    }
    let mut pp = [0u8; 33];
    let mut k: usize = 0;
    while k < 33
        invariant
            k <= 33,
            forall|i: int| 0 <= i < k ==> #[trigger] pp@[i] == raw@[32 + i],
        decreases 33 - k,
    {
        pp[k] = raw[32 + k];
        k = k + 1;
    }
    assert(pp@ =~= raw@.skip(32));
    (idx, pp)
}

// ─── Nonces ────────────────────────────────────────────────────────

/// Generate a 12-byte nonce for AES-GCM from the central generator. There
/// is no fallback: when the generator cannot serve the request its error
/// comes back, and no nonce.
pub fn generate_trng_nonce(pool: &mut EntropyPool) -> (r: Result<[u8; 12], EntropyError>)
    ensures
        old(pool)@ is None ==> r == Err::<[u8; 12], EntropyError>(EntropyError::NotInitialized)
            && final(pool)@ == old(pool)@,
        old(pool)@ matches Some(d) ==> (d.requests == u64::MAX ==>
            r == Err::<[u8; 12], EntropyError>(EntropyError::RequestCounterExhausted) && final(pool)@ == old(pool)@),
        old(pool)@ matches Some(d) ==> (d.requests < u64::MAX ==> (r matches Ok(nonce)
            && nonce@ == drbg_output(d.key, d.value, 12)
            && final(pool)@ == Some(crate::entropy::drbg_after_generate(d, 12)))),
{
    let mut nonce = [0u8; 12];
    match pool.fill(&mut nonce) {
        Ok(()) => Ok(nonce),
        Err(e) => Err(e),
    }
}

// ─── HD multisig descriptors ───────────────────────────────────────

/// Length of one participant field: 33 pubkey bytes and 32 chain-code bytes in hex.
pub const DESC_HEX_LEN: usize = 130;

/// ASCII whitespace tolerated at the end of a descriptor.
pub open spec fn is_trailing_ws(c: u8) -> bool {
    c == 0x0a || c == 0x0d || c == 0x20 || c == 0x09
}

/// `d` without its trailing whitespace.
pub open spec fn trim_trailing_ws(d: Seq<u8>) -> Seq<u8>
    decreases d.len(),
{
    if d.len() > 0 && is_trailing_ws(d.last()) { trim_trailing_ws(d.drop_last()) } else { d }
}

/// The bytes of `multi_hd(`.
pub open spec fn descriptor_prefix() -> Seq<u8> {
    seq![0x6du8, 0x75u8, 0x6cu8, 0x74u8, 0x69u8, 0x5fu8, 0x68u8, 0x64u8, 0x28u8]
}

/// The text between `multi_hd(` and the closing `)`.
pub open spec fn descriptor_inner(d: Seq<u8>) -> Seq<u8> {
    let t = trim_trailing_ws(d);
    t.subrange(9, t.len() - 1)
}

/// Participant field `i` of the inner text.
pub open spec fn desc_field(inner: Seq<u8>, i: int) -> Seq<u8> {
    inner.subrange(2 + 131 * i, 2 + 131 * i + 130)
}

/// Number of participant fields the inner text holds.
pub open spec fn desc_key_count(inner: Seq<u8>) -> int {
    (inner.len() - 1) / 131
}

/// Field `i` is 130 hex digits whose first byte is a compressed-pubkey prefix.
pub open spec fn desc_field_ok(inner: Seq<u8>, i: int) -> bool {
    &&& all_hex(desc_field(inner, i))
    &&& (hex_decode(desc_field(inner, i))[0] == 2u8 || hex_decode(desc_field(inner, i))[0] == 3u8)
}

/// `data` is a well-formed descriptor `multi_hd(M,<130-hex>,...,<130-hex>)`
/// (a comma may follow the last field, whitespace may trail) with between 1
/// and `max_keys` participants, a single digit M from 1 to 9 and M at most
/// the number of participants.
pub open spec fn descriptor_valid(data: Seq<u8>, max_keys: int) -> bool {
    let t = trim_trailing_ws(data);
    let inner = descriptor_inner(data);
    let n = desc_key_count(inner);
    &&& t.len() >= 11
    &&& t.take(9) == descriptor_prefix()
    &&& t.last() == 0x29u8
    &&& 0x31 <= inner[0] <= 0x39
    &&& inner[1] == 0x2cu8
    &&& ((inner.len() - 1) % 131 == 0 || ((inner.len() - 1) % 131 == 1 && inner.last() == 0x2cu8))
    &&& 1 <= n <= max_keys
    &&& forall|i: int| 0 <= i < n ==> #[trigger] desc_field_ok(inner, i)
    &&& forall|i: int| 0 <= i < n - 1 ==> #[trigger] inner[2 + 131 * i + 130] == 0x2cu8
    &&& inner[0] - 0x30 <= n
}

/// Decode `out.len()` bytes from the hex digits `s[start .. start + 2 * out.len()]`.
/// Fails when one of them is not a hex digit.
fn decode_hex_field(s: &[u8], start: usize, out: &mut [u8]) -> (ok: bool)
    requires
        start + 2 * old(out)@.len() <= s@.len(),
    ensures
        final(out)@.len() == old(out)@.len(),
        ok == all_hex(s@.subrange(start as int, start + 2 * old(out)@.len())),
        ok ==> final(out)@ == hex_decode(s@.subrange(start as int, start + 2 * old(out)@.len())),
{
    let ghost src = s@.subrange(start as int, start + 2 * out@.len());
    let len = out.len();
    let slen = s.len();
    let mut j: usize = 0;
    while j < len
        invariant
            len == out@.len(),
            len == old(out)@.len(),
            slen == s@.len(),
            start + 2 * len <= slen,
            src == s@.subrange(start as int, start + 2 * len),
            j <= len,
            forall|t: int| 0 <= t < 2 * j ==> #[trigger] is_hex_digit(src[t]),
            forall|t: int| 0 <= t < j ==> out@[t] == hex_decode(src)[t],
        decreases len - j,
    {
        let hi = hex_nibble(s[start + 2 * j]);
        let lo = hex_nibble(s[start + 2 * j + 1]);
        assert(src[2 * j as int] == s@[start + 2 * j]);
        assert(src[2 * j + 1] == s@[start + 2 * j + 1]);
        if hi == 0xFF || lo == 0xFF {
            assert(!is_hex_digit(src[2 * j as int]) || !is_hex_digit(src[2 * j + 1]));
            return false;
        }
        let b = (hi << 4) | lo;
        assert(b == hi * 16 + lo) by (bit_vector)
            requires hi < 16, lo < 16, b == (hi << 4) | lo;
        out[j] = b;
        j = j + 1;
    }
    assert(out@ =~= hex_decode(src));
    true
}

/// Parse an HD multisig descriptor `multi_hd(M,<130-hex>,...,<130-hex>)`,
/// where each participant field is a compressed pubkey (33 bytes) followed by
/// its chain code (32 bytes), for at most `K` participants.
///
/// Returns `(m, n, cosigner_pubkeys, cosigner_chain_codes)`; the arrays hold
/// the `n` participants in order and zeros after them.
pub fn parse_descriptor<const K: usize>(data: &[u8]) -> (r: Option<(u8, u8, [[u8; 33]; K], [[u8; 32]; K])>)
    requires
        K <= 255,
    ensures
        r is Some <==> descriptor_valid(data@, K as int),
        r matches Some(res) ==> {
            let inner = descriptor_inner(data@);
            &&& res.0 == inner[0] - 0x30
            &&& res.1 == desc_key_count(inner)
            &&& forall|i: int| 0 <= i < res.1 ==> #[trigger] res.2[i]@ == hex_decode(desc_field(inner, i).take(66))
            &&& forall|i: int| 0 <= i < res.1 ==> #[trigger] res.3[i]@ == hex_decode(desc_field(inner, i).subrange(66, 130))
            &&& forall|i: int| res.1 <= i < K ==> #[trigger] res.2[i]@ == Seq::new(33, |j: int| 0u8)
            &&& forall|i: int| res.1 <= i < K ==> #[trigger] res.3[i]@ == Seq::new(32, |j: int| 0u8)
        },
{
    // Trim trailing whitespace/newlines
    let mut end = data.len();
    assert(data@.take(end as int) =~= data@);
    while end > 0 && (data[end - 1] == 0x0a || data[end - 1] == 0x0d || data[end - 1] == 0x20 || data[end - 1] == 0x09)
        invariant
            end <= data@.len(),
            trim_trailing_ws(data@) == trim_trailing_ws(data@.take(end as int)),
        decreases end,
    {
        assert(data@.take(end as int).drop_last() =~= data@.take(end - 1));
        end = end - 1;
    }
    let t = vstd::slice::slice_subrange(data, 0, end);
    assert(t@ == trim_trailing_ws(data@));

    // Must start with "multi_hd(" and end with ")"
    if t.len() < 11 {
        return None;
    }
    if !(t[0] == 0x6d && t[1] == 0x75 && t[2] == 0x6c && t[3] == 0x74 && t[4] == 0x69 && t[5] == 0x5f
        && t[6] == 0x68 && t[7] == 0x64 && t[8] == 0x28) {
        assert(t@.take(9)[0] != descriptor_prefix()[0] || t@.take(9)[1] != descriptor_prefix()[1]
            || t@.take(9)[2] != descriptor_prefix()[2] || t@.take(9)[3] != descriptor_prefix()[3]
            || t@.take(9)[4] != descriptor_prefix()[4] || t@.take(9)[5] != descriptor_prefix()[5]
            || t@.take(9)[6] != descriptor_prefix()[6] || t@.take(9)[7] != descriptor_prefix()[7]
            || t@.take(9)[8] != descriptor_prefix()[8]);
        return None;
    }
    assert(t@.take(9) =~= descriptor_prefix());
    if t[t.len() - 1] != 0x29 {
        return None;
    }
    let inner = vstd::slice::slice_subrange(t, 9, t.len() - 1);
    assert(inner@ == descriptor_inner(data@));
    let ilen = inner.len();

    // First field: M (single digit 1..=9)
    if inner[0] < 0x31 || inner[0] > 0x39 {
        return None;
    }
    let m = inner[0] - 0x30;
    if ilen < 2 || inner[1] != 0x2c {
        proof {
            if descriptor_valid(data@, K as int) {
                let c = desc_key_count(inner@);
                assert(ilen >= 2) by (nonlinear_arith)
                    requires c == (ilen - 1) / 131, c >= 1;
            }
        }
        return None;
    }

    // Remaining: comma-separated 130-char hex fields
    let mut pubkeys: [[u8; 33]; K] = [[0u8; 33]; K];
    let mut chains: [[u8; 32]; K] = [[0u8; 32]; K];
    let mut n: usize = 0;
    let mut pos: usize = 2;
    while pos < ilen
        invariant_except_break
            pos == 2 + 131 * n,
            pos <= ilen,
            forall|i: int| 0 <= i < n ==> #[trigger] inner@[2 + 131 * i + 130] == 0x2cu8,
        invariant
            ilen == inner@.len(),
            ilen >= 2,
            inner@ == descriptor_inner(data@),
            n <= K,
            K <= 255,
            forall|i: int| 0 <= i < n ==> #[trigger] desc_field_ok(inner@, i),
            forall|i: int| 0 <= i < n ==> #[trigger] pubkeys[i]@ == hex_decode(desc_field(inner@, i).take(66)),
            forall|i: int| 0 <= i < n ==> #[trigger] chains[i]@ == hex_decode(desc_field(inner@, i).subrange(66, 130)),
            forall|i: int| n <= i < K ==> #[trigger] pubkeys[i]@ == Seq::new(33, |j: int| 0u8),
            forall|i: int| n <= i < K ==> #[trigger] chains[i]@ == Seq::new(32, |j: int| 0u8),
        ensures
            n <= K,
            (pos == 2 + 131 * n && pos == ilen
                && forall|i: int| 0 <= i < n ==> #[trigger] inner@[2 + 131 * i + 130] == 0x2cu8)
            || (n >= 1 && ilen == 131 * n + 1
                && forall|i: int| 0 <= i < n - 1 ==> #[trigger] inner@[2 + 131 * i + 130] == 0x2cu8),
        decreases ilen - pos,
    {
        if n >= K {
            proof { lemma_fields_exceed(inner@, n as int, K as int); }
            return None;
        }
        if pos + DESC_HEX_LEN > ilen {
            proof { lemma_field_truncated(inner@, n as int, K as int); }
            return None;
        }
        let ghost field = desc_field(inner@, n as int);
        assert(field.take(66) =~= inner@.subrange(pos as int, pos + 66));
        assert(field.subrange(66, 130) =~= inner@.subrange(pos + 66, pos + 130));
        let mut pk = [0u8; 33];
        if !decode_hex_field(inner, pos, &mut pk) {
            proof { lemma_field_bad(inner@, n as int, K as int, data@); }
            return None;
        }
        // Validate compressed pubkey prefix (must be 0x02 or 0x03)
        if pk[0] != 0x02 && pk[0] != 0x03 {
            proof { lemma_field_bad(inner@, n as int, K as int, data@); }
            return None;
        }
        let mut cc = [0u8; 32];
        if !decode_hex_field(inner, pos + 66, &mut cc) {
            proof { lemma_field_bad(inner@, n as int, K as int, data@); }
            return None;
        }
        proof { lemma_field_parts(field); }
        pubkeys[n] = pk;
        chains[n] = cc;
        n = n + 1;
        pos = pos + DESC_HEX_LEN;
        if pos < ilen {
            if inner[pos] != 0x2c {
                proof { lemma_comma_missing(inner@, n as int, K as int, data@); }
                return None;
            }
            pos = pos + 1;
        } else {
            break;
        }
    }

    if n == 0 || (m as usize) > n {
        return None;
    }
    proof {
        assert(desc_key_count(inner@) == n) by (nonlinear_arith)
            requires ilen == 131 * n + 1 || ilen == 131 * n + 2, desc_key_count(inner@) == (ilen - 1) / 131;
        let tt = trim_trailing_ws(data@);
        assert(tt.len() >= 11);
        assert(tt.take(9) == descriptor_prefix());
        assert(tt.last() == 0x29u8);
        assert(0x31 <= inner@[0] <= 0x39);
        assert(inner@[1] == 0x2cu8);
        if ilen == 131 * n + 1 {
            assert((ilen - 1) % 131 == 0) by (nonlinear_arith)
                requires ilen == 131 * n + 1;
        } else {
            assert((ilen - 1) % 131 == 1) by (nonlinear_arith)
                requires ilen == 131 * n + 2;
            assert(inner@[2 + 131 * (n - 1) + 130] == 0x2cu8);
            assert(inner@.last() == 0x2cu8);
        }
        assert(forall|i: int| 0 <= i < n - 1 ==> #[trigger] inner@[2 + 131 * i + 130] == 0x2cu8);
        assert(descriptor_valid(data@, K as int));
    }
    Some((m, n as u8, pubkeys, chains))
}

/// A field that is all hex splits into the hex of its pubkey and of its chain code.
proof fn lemma_field_parts(field: Seq<u8>)
    requires
        field.len() == 130,
        all_hex(field.take(66)),
        all_hex(field.subrange(66, 130)),
        hex_decode(field.take(66))[0] == 2u8 || hex_decode(field.take(66))[0] == 3u8,
    ensures
        all_hex(field),
        hex_decode(field)[0] == 2u8 || hex_decode(field)[0] == 3u8,
{
    assert forall|i: int| 0 <= i < field.len() implies #[trigger] is_hex_digit(field[i]) by {
        if i < 66 {
            assert(field.take(66)[i] == field[i]);
        } else {
            assert(field.subrange(66, 130)[i - 66] == field[i]);
        }
    }
    assert(field.take(66)[0] == field[0]);
    assert(field.take(66)[1] == field[1]);
}

/// With `n` fields read and text left, a valid descriptor has more than `n` fields.
proof fn lemma_more_fields(inner: Seq<u8>, n: int)
    requires
        n >= 0,
        inner.len() >= 131 * n + 3,
        (inner.len() - 1) % 131 == 0 || (inner.len() - 1) % 131 == 1,
    ensures
        desc_key_count(inner) >= n + 1,
{
    let l = inner.len() as int;
    assert((l - 1) / 131 >= n + 1) by (nonlinear_arith)
        requires l >= 131 * n + 3, (l - 1) % 131 == 0 || (l - 1) % 131 == 1, n >= 0;
}

proof fn lemma_fields_exceed(inner: Seq<u8>, n: int, k: int)
    requires
        n >= k,
        n >= 0,
        inner.len() >= 131 * n + 3,
    ensures
        !(((inner.len() - 1) % 131 == 0 || (inner.len() - 1) % 131 == 1) && desc_key_count(inner) <= k),
{
    if (inner.len() - 1) % 131 == 0 || (inner.len() - 1) % 131 == 1 {
        lemma_more_fields(inner, n);
    }
}

proof fn lemma_field_truncated(inner: Seq<u8>, n: int, k: int)
    requires
        n >= 0,
        inner.len() >= 131 * n + 3,
        131 * n + 132 > inner.len(),
    ensures
        !((inner.len() - 1) % 131 == 0 || (inner.len() - 1) % 131 == 1),
{
    let l = inner.len() as int;
    assert(!((l - 1) % 131 == 0 || (l - 1) % 131 == 1)) by (nonlinear_arith)
        requires l >= 131 * n + 3, 131 * n + 132 > l, n >= 0;
}

/// Trailing white space (line feed, carriage return, space, tab) appended to
/// a text is dropped again by the trimming.
proof fn lemma_trim_appended_ws(d: Seq<u8>, w: Seq<u8>)
    requires
        forall|i: int| 0 <= i < w.len() ==> #[trigger] is_trailing_ws(w[i]),
    ensures
        trim_trailing_ws(d + w) == trim_trailing_ws(d),
    decreases w.len(),
{
    if w.len() > 0 {
        let w1 = w.drop_last();
        assert((d + w).drop_last() =~= d + w1);
        assert(is_trailing_ws(w[w.len() - 1]));
        assert((d + w).last() == w.last());
        lemma_trim_appended_ws(d, w1);
    } else {
        assert(d + w =~= d);
    }
}

/// Whether a descriptor is accepted does not depend on white space that
/// trails it: appending line feeds, carriage returns, spaces or tabs changes
/// nothing, and the parsed descriptor's text is the same.
pub proof fn lemma_descriptor_ignores_trailing_ws(d: Seq<u8>, w: Seq<u8>, max_keys: int)
    requires
        forall|i: int| 0 <= i < w.len() ==> #[trigger] is_trailing_ws(w[i]),
    ensures
        descriptor_valid(d + w, max_keys) == descriptor_valid(d, max_keys),
        descriptor_inner(d + w) == descriptor_inner(d),
{
    lemma_trim_appended_ws(d, w);
}

proof fn lemma_field_bad(inner: Seq<u8>, n: int, k: int, data: Seq<u8>)
    requires
        n >= 0,
        inner == descriptor_inner(data),
        inner.len() >= 131 * n + 132,
        !desc_field_ok(inner, n),
    ensures
        !descriptor_valid(data, k),
{
    if descriptor_valid(data, k) {
        lemma_more_fields(inner, n);
        assert(desc_field_ok(inner, n));
    }
}

proof fn lemma_comma_missing(inner: Seq<u8>, n: int, k: int, data: Seq<u8>)
    requires
        n >= 1,
        inner == descriptor_inner(data),
        131 * n + 1 < inner.len(),
        inner[131 * n + 1] != 0x2cu8,
    ensures
        !descriptor_valid(data, k),
{
    if descriptor_valid(data, k) {
        let l = inner.len() as int;
        let c = desc_key_count(inner);
        if (l - 1) % 131 == 0 {
            assert(c >= n + 1) by (nonlinear_arith)
                requires l >= 131 * n + 2, (l - 1) % 131 == 0, c == (l - 1) / 131, n >= 1;
            assert(inner[2 + 131 * (n - 1) + 130] == 0x2cu8);
        } else {
            assert(c >= n) by (nonlinear_arith)
                requires l >= 131 * n + 2, (l - 1) % 131 == 1, c == (l - 1) / 131, n >= 1;
            if c == n {
                assert(l - 1 == 131 * n + 1) by (nonlinear_arith)
                    requires (l - 1) % 131 == 1, c == (l - 1) / 131, c == n;
                assert(inner.last() == inner[131 * n + 1]);
            } else {
                assert(inner[2 + 131 * (n - 1) + 130] == 0x2cu8);
            }
        }
    }
}

} // verus!
