//! The JPEG steganography screens: hiding an encrypted seed backup (and an
//! optional encrypted recovery hint) in the EXIF comment of a picture on the
//! card, and recovering it.
//!
//! The card, the keyboard, the backup cipher and the EXIF/base64 coding are
//! the caller's work, asked for through a [`StegoEffect`]; this module
//! decides the screens, derives the nonces, lays out and splits the EXIF
//! comment and reads descriptor text files.

use vstd::prelude::*;
use crate::hmac::{hmac_sha512, hmac_sha512_spec};
use crate::sdfile::{DirEntryInfo, HiddenRule, list_files, listed_names};
use crate::sd_touch::{trimmed_len, trim_file_end};
use crate::input::AppState;
use crate::screens::{TouchHit, UiState, in_span, within, goto, went_home};

verus! {

// ─── Nonces ────────────────────────────────────────────────────────

/// The HMAC key of the hint nonce: "stego-pp-nonce".
pub open spec fn hint_nonce_key() -> Seq<u8> {
    seq![0x73u8, 0x74u8, 0x65u8, 0x67u8, 0x6fu8, 0x2du8, 0x70u8, 0x70u8, 0x2du8, 0x6eu8, 0x6fu8, 0x6eu8, 0x63u8, 0x65u8]
}

/// The HMAC key of the seed nonce: "stego-nonce".
pub open spec fn seed_nonce_key() -> Seq<u8> {
    seq![0x73u8, 0x74u8, 0x65u8, 0x67u8, 0x6fu8, 0x2du8, 0x6eu8, 0x6fu8, 0x6eu8, 0x63u8, 0x65u8]
}

/// Longest message the hint nonce is derived from.
pub const HINT_NONCE_SRC: usize = 256;

/// The nonce that encrypts a recovery hint: the first 12 bytes of
/// HMAC-SHA512 keyed "stego-pp-nonce" over the hint followed by the image
/// descriptor, cut at 256 bytes.
pub open spec fn hint_nonce_spec(hint: Seq<u8>, desc: Seq<u8>) -> Seq<u8> {
    let src = hint + desc;
    let n = if src.len() < HINT_NONCE_SRC { src.len() as int } else { HINT_NONCE_SRC as int };
    hmac_sha512_spec(hint_nonce_key(), src.take(n)).take(12)
}

/// The nonce that encrypts a recovery hint (see [`hint_nonce_spec`]).
pub fn hint_nonce(hint: &[u8], desc: &[u8]) -> (nonce: [u8; 12])
    requires
        hint@.len() <= HINT_NONCE_SRC,
    ensures
        nonce@ == hint_nonce_spec(hint@, desc@),
{
    let key: [u8; 14] = [0x73, 0x74, 0x65, 0x67, 0x6f, 0x2d, 0x70, 0x70, 0x2d, 0x6e, 0x6f, 0x6e, 0x63, 0x65];
    assert(key@ =~= hint_nonce_key());
    let ghost src = hint@ + desc@;
    let mut msg: Vec<u8> = Vec::new();
    let mut i: usize = 0;
    while i < hint.len()
        invariant
            i <= hint@.len(),
            msg@ == hint@.take(i as int),
        decreases hint@.len() - i,
    {
        msg.push(hint[i]);
        i = i + 1;
        assert(msg@ =~= hint@.take(i as int));
    }
    assert(msg@ =~= src.take(hint@.len() as int));
    let mut j: usize = 0;
    while j < desc.len() && msg.len() < HINT_NONCE_SRC
        invariant
            hint@.len() <= HINT_NONCE_SRC,
            j <= desc@.len(),
            msg@.len() == hint@.len() + j,
            msg@.len() <= HINT_NONCE_SRC,
            msg@ == src.take(msg@.len() as int),
            src == hint@ + desc@,
        decreases desc@.len() - j,
    {
        msg.push(desc[j]);
        j = j + 1;
        assert(msg@ =~= src.take(msg@.len() as int));
    }
    let mac = hmac_sha512(key.as_slice(), msg.as_slice());
    let nonce = [mac[0], mac[1], mac[2], mac[3], mac[4], mac[5], mac[6], mac[7], mac[8], mac[9], mac[10], mac[11]];
    assert(nonce@ =~= mac@.take(12));
    nonce
}

/// The word indices of a seed as bytes, each index high byte first.
pub open spec fn index_bytes(indices: Seq<u16>) -> Seq<u8> {
    Seq::new(2 * indices.len(), |i: int|
        if i % 2 == 0 { (indices[i / 2] / 256) as u8 } else { (indices[i / 2] % 256) as u8 })
}

/// The nonce that encrypts the seed hidden in a picture: the first 12 bytes
/// of HMAC-SHA512 keyed "stego-nonce" over the indices of the seed's words
/// (all 24 when the count says more).
pub open spec fn seed_nonce_spec(indices: Seq<u16>, word_count: u8) -> Seq<u8> {
    let n = if 2 * word_count < 48 { 2 * word_count } else { 48 };
    hmac_sha512_spec(seed_nonce_key(), index_bytes(indices).take(n)).take(12)
}

/// The nonce that encrypts the seed hidden in a picture (see [`seed_nonce_spec`]).
pub fn seed_nonce(indices: &[u16; 24], word_count: u8) -> (nonce: [u8; 12])
    ensures
        nonce@ == seed_nonce_spec(indices@, word_count),
{
    let key: [u8; 11] = [0x73, 0x74, 0x65, 0x67, 0x6f, 0x2d, 0x6e, 0x6f, 0x6e, 0x63, 0x65];
    assert(key@ =~= seed_nonce_key());
    let n: usize = if (word_count as usize) * 2 < 48 { (word_count as usize) * 2 } else { 48 };
    let ghost all = index_bytes(indices@);
    let mut msg: Vec<u8> = Vec::new();
    let mut i: usize = 0;
    while i < n
        invariant
            n <= 48,
            i <= n,
            all == index_bytes(indices@),
            msg@ == all.take(i as int),
        decreases n - i,
    {
        let w = indices[i / 2];
        let b: u8 = if i % 2 == 0 { (w / 256) as u8 } else { (w % 256) as u8 };
        msg.push(b);
        i = i + 1;
        assert(msg@ =~= all.take(i as int));
    }
    let mac = hmac_sha512(key.as_slice(), msg.as_slice());
    let nonce = [mac[0], mac[1], mac[2], mac[3], mac[4], mac[5], mac[6], mac[7], mac[8], mac[9], mac[10], mac[11]];
    assert(nonce@ =~= mac@.take(12));
    nonce
}

// ─── The EXIF comment ──────────────────────────────────────────────

/// The separator between the seed part and the hint part of the comment.
pub const COMMENT_BAR: u8 = 0x7c;
/// Size of the comment buffer.
pub const COMMENT_MAX: usize = 256;

/// `s` holds no separator.
pub open spec fn bar_free(s: Seq<u8>) -> bool {
    forall|i: int| 0 <= i < s.len() ==> s[i] != COMMENT_BAR
}

/// The hint is attached to the comment: there is one, and the whole comment
/// stays under 256 bytes.
pub open spec fn hint_attached(seed_b64: Seq<u8>, hint_b64: Seq<u8>) -> bool {
    hint_b64.len() > 0 && seed_b64.len() + 1 + hint_b64.len() < COMMENT_MAX
}

/// The EXIF user comment: the encoded seed backup, then `|` and the encoded
/// hint when it is attached.
pub open spec fn user_comment_spec(seed_b64: Seq<u8>, hint_b64: Seq<u8>) -> Seq<u8> {
    if hint_attached(seed_b64, hint_b64) {
        seed_b64 + seq![COMMENT_BAR] + hint_b64
    } else {
        seed_b64
    }
}

/// Lay out the EXIF user comment (see [`user_comment_spec`]).
pub fn user_comment(seed_b64: &[u8], hint_b64: &[u8]) -> (uc: Vec<u8>)
    requires
        seed_b64@.len() < COMMENT_MAX,
    ensures
        uc@ == user_comment_spec(seed_b64@, hint_b64@),
        uc@.len() < COMMENT_MAX,
{
    let mut uc: Vec<u8> = Vec::new();
    let mut i: usize = 0;
    while i < seed_b64.len()
        invariant
            i <= seed_b64@.len(),
            uc@ == seed_b64@.take(i as int),
        decreases seed_b64@.len() - i,
    {
        uc.push(seed_b64[i]);
        i = i + 1;
        assert(uc@ =~= seed_b64@.take(i as int));
    }
    assert(uc@ =~= seed_b64@);
    if hint_b64.len() > 0 && seed_b64.len() + 1 < COMMENT_MAX && hint_b64.len() < COMMENT_MAX - 1 - seed_b64.len() {
        uc.push(COMMENT_BAR);
        let ghost head = uc@;
        let mut j: usize = 0;
        while j < hint_b64.len()
            invariant
                j <= hint_b64@.len(),
                uc@ == head + hint_b64@.take(j as int),
            decreases hint_b64@.len() - j,
        {
            uc.push(hint_b64[j]);
            j = j + 1;
            assert(uc@ =~= head + hint_b64@.take(j as int));
        }
        assert(uc@ =~= seed_b64@ + seq![COMMENT_BAR] + hint_b64@);
    }
    uc
}

/// `(seed_len, hint_start, hint_len)` is how a comment splits: the seed
/// part runs to the first `|` (or the end), the hint part follows the `|`.
pub open spec fn is_comment_split(uc: Seq<u8>, r: (usize, usize, usize)) -> bool {
    &&& r.0 <= uc.len()
    &&& bar_free(uc.take(r.0 as int))
    &&& r.0 < uc.len() ==> uc[r.0 as int] == COMMENT_BAR && r.1 == r.0 + 1 && r.2 == uc.len() - r.0 - 1
    &&& r.0 == uc.len() ==> r.1 == 0 && r.2 == 0
}

/// Split a recovered EXIF comment into its seed part and hint part (see
/// [`is_comment_split`]).
pub fn split_user_comment(uc: &[u8]) -> (r: (usize, usize, usize))
    ensures
        is_comment_split(uc@, r),
{
    let mut i: usize = 0;
    while i < uc.len()
        invariant
            i <= uc@.len(),
            bar_free(uc@.take(i as int)),
        decreases uc@.len() - i,
    {
        if uc[i] == COMMENT_BAR {
            return (i, i + 1, uc.len() - i - 1);
        }
        i = i + 1;
        assert(bar_free(uc@.take(i as int))) by {
            assert forall|t: int| 0 <= t < i implies uc@.take(i as int)[t] != COMMENT_BAR by {
                if t < i - 1 {
                    assert(uc@.take(i as int)[t] == uc@.take(i - 1)[t]);
                }
            }
        }
    }
    assert(uc@.take(uc@.len() as int) =~= uc@);
    (uc.len(), 0, 0)
}

/// A comment laid out on export splits back on import into the same seed
/// part, and into the same hint part when the hint was attached (no hint
/// part otherwise), provided the encoded seed holds no `|`.
pub proof fn lemma_user_comment_splits(seed_b64: Seq<u8>, hint_b64: Seq<u8>, r: (usize, usize, usize))
    requires
        bar_free(seed_b64),
        is_comment_split(user_comment_spec(seed_b64, hint_b64), r),
    ensures
        user_comment_spec(seed_b64, hint_b64).take(r.0 as int) == seed_b64,
        hint_attached(seed_b64, hint_b64) ==>
            user_comment_spec(seed_b64, hint_b64).subrange(r.1 as int, r.1 + r.2) == hint_b64,
        !hint_attached(seed_b64, hint_b64) ==> r.2 == 0,
{
    let uc = user_comment_spec(seed_b64, hint_b64);
    let k = seed_b64.len();
    if hint_attached(seed_b64, hint_b64) {
        assert(uc[k as int] == COMMENT_BAR);
        if r.0 < k {
            assert(uc[r.0 as int] == seed_b64[r.0 as int]);
        } else if r.0 > k {
            assert(uc.take(r.0 as int)[k as int] == COMMENT_BAR);
        }
        assert(r.0 == k);
        assert(uc.take(r.0 as int) =~= seed_b64);
        assert(uc.subrange(r.1 as int, r.1 + r.2) =~= hint_b64);
    } else {
        if r.0 < uc.len() {
            assert(uc[r.0 as int] == seed_b64[r.0 as int]);
        }
        assert(uc.take(r.0 as int) =~= seed_b64);
    }
}

// ─── Descriptor text files ─────────────────────────────────────────

/// Longest descriptor read from a text file.
pub const TXT_DESC_MAX: usize = 128;

/// The file starts with a UTF-8 byte-order mark.
pub open spec fn has_bom(sector: Seq<u8>, fsize: u32) -> bool {
    fsize >= 3 && sector[0] == 0xEF && sector[1] == 0xBB && sector[2] == 0xBF
}

/// Where the descriptor text of a file starts in its first sector.
pub open spec fn txt_start(sector: Seq<u8>, fsize: u32) -> int {
    if has_bom(sector, fsize) { 3 } else { 0 }
}

/// How many bytes after the start are read: the rest of the file within the
/// sector, at most 128.
pub open spec fn txt_window(sector: Seq<u8>, fsize: u32) -> int {
    let avail: int = if fsize < 512 { fsize as int } else { 512 };
    let w = avail - txt_start(sector, fsize);
    if w < TXT_DESC_MAX { w } else { TXT_DESC_MAX as int }
}

/// The descriptor a text file holds, as `(start, len)` within its first
/// sector: the window without a byte-order mark and without trailing
/// newlines, spaces and zero bytes; `None` when nothing is left.
pub open spec fn txt_descriptor_spec(sector: Seq<u8>, fsize: u32) -> Option<(usize, usize)> {
    let start = txt_start(sector, fsize);
    let end = trimmed_len(sector.skip(start), txt_window(sector, fsize) as nat);
    if end == 0 { None } else { Some((start as usize, end as usize)) }
}

/// The descriptor a text file holds (see [`txt_descriptor_spec`]).
pub fn txt_descriptor(sector: &[u8; 512], fsize: u32) -> (r: Option<(usize, usize)>)
    ensures
        r == txt_descriptor_spec(sector@, fsize),
        r matches Some((start, len)) ==> start + len <= 512 && len <= TXT_DESC_MAX,
{
    let start: usize = if fsize >= 3 && sector[0] == 0xEF && sector[1] == 0xBB && sector[2] == 0xBF { 3 } else { 0 };
    let avail: usize = if fsize < 512 { fsize as usize } else { 512 };
    let w: usize = if avail - start < TXT_DESC_MAX { avail - start } else { TXT_DESC_MAX };
    let body = vstd::slice::slice_subrange(sector.as_slice(), start, 512);
    assert(body@ =~= sector@.skip(start as int));
    let end = trim_file_end(body, w);
    proof { lemma_trimmed_len_le(body@, w as nat); }
    if end == 0 { None } else { Some((start, end)) }
}

/// Trimming never lengthens.
proof fn lemma_trimmed_len_le(d: Seq<u8>, n: nat)
    ensures
        trimmed_len(d, n) <= n,
    decreases n,
{
    if n > 0 {
        lemma_trimmed_len_le(d, (n - 1) as nat);
    }
}

/// Longest descriptor taken from the keyboard.
pub const TYPED_DESC_MAX: usize = 96;

/// The descriptor typed on the keyboard: its first 96 bytes.
pub fn typed_descriptor(entry: &[u8]) -> (d: Vec<u8>)
    ensures
        d@ == entry@.take(if entry@.len() < TYPED_DESC_MAX { entry@.len() as int } else { TYPED_DESC_MAX as int }),
{
    let n = if entry.len() < TYPED_DESC_MAX { entry.len() } else { TYPED_DESC_MAX };
    let mut d: Vec<u8> = Vec::new();
    let mut i: usize = 0;
    while i < n
        invariant
            n <= entry@.len(),
            i <= n,
            d@ == entry@.take(i as int),
        decreases n - i,
    {
        d.push(entry[i]);
        i = i + 1;
        assert(d@ =~= entry@.take(i as int));
    }
    d
}

// ─── Listings ──────────────────────────────────────────────────────

/// Files a stego list holds.
pub const STEGO_LIST_MAX: usize = 8;
/// Largest descriptor text file listed.
pub const TXT_FILE_MAX: u32 = 256;

/// The extensions of pictures: JPG and JPE, in either case.
pub open spec fn jpeg_exts() -> Seq<[u8; 3]> {
    seq![[0x4au8, 0x50u8, 0x47u8], [0x6au8, 0x70u8, 0x67u8], [0x4au8, 0x50u8, 0x45u8], [0x6au8, 0x70u8, 0x65u8]]
}

/// The extensions of descriptor text files: TXT in either case.
pub open spec fn txt_exts() -> Seq<[u8; 3]> {
    seq![[0x54u8, 0x58u8, 0x54u8], [0x74u8, 0x78u8, 0x74u8]]
}

/// The pictures a stego list offers: visible, non-empty JPEG files, at most eight.
pub fn jpeg_listing(entries: &[DirEntryInfo]) -> (names: Vec<[u8; 11]>)
    ensures
        names@ == listed_names(entries@, jpeg_exts(), HiddenRule::DotDeletedOrUnderscore, None, STEGO_LIST_MAX as nat),
{
    let exts: [[u8; 3]; 4] = [[0x4a, 0x50, 0x47], [0x6a, 0x70, 0x67], [0x4a, 0x50, 0x45], [0x6a, 0x70, 0x65]];
    assert(exts@ =~= jpeg_exts());
    list_files(entries, exts.as_slice(), HiddenRule::DotDeletedOrUnderscore, None, STEGO_LIST_MAX)
}

/// The descriptor files a stego list offers: visible TXT files of 1 to 256
/// bytes, at most eight.
pub fn txt_listing(entries: &[DirEntryInfo]) -> (names: Vec<[u8; 11]>)
    ensures
        names@ == listed_names(entries@, txt_exts(), HiddenRule::DotDeletedOrUnderscore, Some(TXT_FILE_MAX),
            STEGO_LIST_MAX as nat),
{
    let exts: [[u8; 3]; 2] = [[0x54, 0x58, 0x54], [0x74, 0x78, 0x74]];
    assert(exts@ =~= txt_exts());
    list_files(entries, exts.as_slice(), HiddenRule::DotDeletedOrUnderscore, Some(TXT_FILE_MAX), STEGO_LIST_MAX)
}

// ─── Touch handling ────────────────────────────────────────────────

/// The stego screens' own navigation state.
#[derive(Clone, Copy)]
pub struct StegoNav {
    /// The picture selected on the export list, and how many it holds.
    pub jpeg_selected: u8,
    pub jpeg_count: u8,
    /// The picture selected on the import list, and how many it holds.
    pub import_selected: u8,
    pub import_count: u8,
    /// Descriptor text files found.
    pub txt_count: u8,
    /// The recovery-hint row last chosen.
    pub hint_selected: u8,
}

/// What the stego screens read besides the interface state.
#[derive(Clone, Copy)]
pub struct StegoContext {
    /// The active seed slot holds a seed.
    pub seed_loaded: bool,
    /// An SD card was detected at boot.
    pub card_present: bool,
    /// The key under the touch, from the keyboard's hit test.
    pub key: u8,
}

/// Why a stego screen refused to go on.
#[derive(Debug, Clone, Copy, PartialEq, Eq, Structural)]
pub enum StegoRefusal {
    NoSeed,
    NoCard,
}

/// Work left to the caller after a touch on a stego screen.
#[derive(Debug, Clone, Copy, PartialEq, Eq, Structural)]
pub enum StegoEffect {
    NoEffect,
    /// Show the refusal.
    Refuse { reason: StegoRefusal },
    /// List the pictures on the card (see [`jpeg_listing`]), then see [`jpeg_scan_next`].
    ScanJpegs,
    /// Record that the seed was hidden (the old single-step path).
    MarkEmbedded,
    /// Clear the keyboard entry.
    ClearEntry,
    /// Forget the descriptor of the previous picture.
    ClearDescriptor,
    /// List the descriptor files on the card (see [`txt_listing`]), then
    /// see [`txt_scan_next`].
    ScanTxt,
    /// Read the descriptor file at this index of the list (see
    /// [`txt_descriptor`]), then see [`txt_read_next`].
    ReadTxt { index: u8 },
    /// Let the keyboard act on this key (next page, backspace, space, redraw).
    Key { key: u8 },
    /// Take the typed text as the descriptor (see [`typed_descriptor`]) and
    /// clear the entry.
    TakeDescriptor,
    /// Drop any recovery hint.
    ClearHint,
    /// Encrypt the preset recovery hint of this row under the descriptor
    /// (nonce from [`hint_nonce`]).
    EncryptPresetHint { row: u8 },
    /// Take the typed hint, clear the entry, and encrypt the hint under the
    /// descriptor when it is not empty.
    EncryptTypedHint,
    /// Encrypt the active seed under the descriptor (nonce from
    /// [`seed_nonce`]), lay out the comment ([`user_comment`]) and write it
    /// into the selected picture; then see [`stego_write_next`].
    WriteStego,
    /// Forget the comment read from the previously selected picture and
    /// clear the entry.
    SelectImport,
    /// Read the comment of the selected picture, split it
    /// ([`split_user_comment`]) and decrypt it with the typed descriptor;
    /// then see [`import_decrypted_next`].
    DecryptImport,
    /// Store the recovered seed without a passphrase and activate it.
    StoreWithoutPassphrase,
    /// Store the recovered seed with the typed passphrase, activate it and
    /// clear the entry.
    StoreWithPassphrase,
}

/// Pictures a list page shows.
pub const PICK_PAGE: u8 = 4;

/// What a tap on a picture list does.
#[derive(Debug, Clone, Copy, PartialEq, Eq, Structural)]
pub enum PickTap {
    Nothing,
    PageUp,
    PageDown,
    /// The picture at this index was picked.
    Pick { index: u8 },
}

/// A tap on a picture list of `count` pictures with `selected` selected:
/// the page-up zone moves the selection a page back (when it is not on the
/// first page), the page-down zone a page forward (to the last picture at
/// most) while another page holds pictures, and a row picks the picture it
/// shows. Gives the new selection.
pub open spec fn pick_tap_spec(selected: u8, count: u8, hit: TouchHit) -> (u8, PickTap) {
    if hit.page_up && selected >= PICK_PAGE {
        ((selected - PICK_PAGE) as u8, PickTap::PageUp)
    } else if hit.page_down && (selected / PICK_PAGE + 1) * PICK_PAGE < count {
        ((if selected + PICK_PAGE >= count { count - 1 } else { selected + PICK_PAGE }) as u8, PickTap::PageDown)
    } else {
        match hit.list {
            Some(r) => {
                let abs = (selected / PICK_PAGE) * PICK_PAGE + r;
                if r < PICK_PAGE && abs < count {
                    (abs as u8, PickTap::Pick { index: abs as u8 })
                } else {
                    (selected, PickTap::Nothing)
                }
            },
            None => (selected, PickTap::Nothing),
        }
    }
}

/// A tap on a picture list (see [`pick_tap_spec`]).
pub fn pick_tap(selected: u8, count: u8, hit: TouchHit) -> (r: (u8, PickTap))
    ensures
        r == pick_tap_spec(selected, count, hit),
{
    if hit.page_up && selected >= PICK_PAGE {
        return (selected - PICK_PAGE, PickTap::PageUp);
    }
    let page: u16 = (selected / PICK_PAGE) as u16;
    if hit.page_down && (page + 1) * 4 < count as u16 {
        let next: u8 = if selected as u16 + 4 >= count as u16 { count - 1 } else { selected + PICK_PAGE };
        return (next, PickTap::PageDown);
    }
    match hit.list {
        Some(r) => {
            let abs: u16 = page * 4 + r as u16;
            if r < PICK_PAGE && abs < count as u16 {
                (abs as u8, PickTap::Pick { index: abs as u8 })
            } else {
                (selected, PickTap::Nothing)
            }
        },
        None => (selected, PickTap::Nothing),
    }
}

/// The recovery-hint row under a touch: four rows from y = 68 every 36
/// pixels, 30 pixels tall, between x = 15 and 305.
pub open spec fn hint_row_spec(x: u16, y: u16) -> Option<u8> {
    if in_span(x, 15, 305) && y >= 68 && (y - 68) % 36 < 30 && (y - 68) / 36 < 4 {
        Some(((y - 68) / 36) as u8)
    } else {
        None
    }
}

/// The recovery-hint row under a touch (see [`hint_row_spec`]).
pub fn hint_row_at(x: u16, y: u16) -> (row: Option<u8>)
    ensures
        row == hint_row_spec(x, y),
{
    if within(x, 15, 305) && y >= 68 && (y - 68) % 36 < 30 && (y - 68) / 36 < 4 {
        Some(((y - 68) / 36) as u8)
    } else {
        None
    }
}

/// The row of the hint that is typed instead of picked.
pub const CUSTOM_HINT_ROW: u8 = 3;

/// A stego screen's answer.
pub open spec fn stego_out(s1: UiState, n1: StegoNav, out: Option<(bool, StegoEffect)>, s: UiState, n: StegoNav,
    redraw: bool, e: StegoEffect) -> bool
{
    s1 == s && n1 == n && out == Some((redraw, e))
}

/// The keys a keyboard screen passes on to the keyboard.
pub open spec fn keyboard_key(key: u8) -> bool {
    key == 1 || key == 2 || key == 4 || key == 5
}

/// The "type it" button of a descriptor choice screen.
pub open spec fn type_button(x: u16, y: u16) -> bool {
    40 <= x < 280 && 68 <= y < 112
}

/// The "load from card" button of a descriptor choice screen.
pub open spec fn load_button(x: u16, y: u16) -> bool {
    40 <= x < 280 && 114 <= y < 158
}

/// A keyboard screen: back goes to `back` doing `on_back`, OK does `ok` and
/// moves to `ok_to` (when given), the keyboard's own keys pass on.
pub open spec fn keyboard_touch(s0: UiState, n0: StegoNav, ctx: StegoContext, hit: TouchHit, back: AppState,
    on_back: StegoEffect, ok_to: Option<AppState>, ok: StegoEffect, s1: UiState, n1: StegoNav, out: Option<(bool, StegoEffect)>) -> bool
{
    if hit.is_back {
        stego_out(s1, n1, out, goto(s0, back), n0, true, on_back)
    } else if ctx.key == 6 {
        match ok_to {
            Some(st) => stego_out(s1, n1, out, goto(s0, st), n0, true, ok),
            None => stego_out(s1, n1, out, s0, n0, true, ok),
        }
    } else if keyboard_key(ctx.key) {
        stego_out(s1, n1, out, s0, n0, false, StegoEffect::Key { key: ctx.key })
    } else {
        stego_out(s1, n1, out, s0, n0, false, StegoEffect::NoEffect)
    }
}

/// What a touch does on the stego screens. Other screens are left alone and
/// answered `None`.
pub open spec fn stego_touch_spec(s0: UiState, n0: StegoNav, ctx: StegoContext, hit: TouchHit, s1: UiState, n1: StegoNav,
    out: Option<(bool, StegoEffect)>) -> bool
{
    let x = hit.x;
    let y = hit.y;
    match s0.app.state {
        AppState::StegoModeSelect => {
            if hit.is_back {
                stego_out(s1, n1, out, goto(s0, AppState::ExportChoice), n0, true, StegoEffect::NoEffect)
            } else if !ctx.seed_loaded {
                stego_out(s1, n1, out, goto(s0, AppState::ExportChoice), n0, true, StegoEffect::Refuse { reason: StegoRefusal::NoSeed })
            } else if !ctx.card_present {
                stego_out(s1, n1, out, goto(s0, AppState::ExportChoice), n0, true, StegoEffect::Refuse { reason: StegoRefusal::NoCard })
            } else {
                stego_out(s1, n1, out, s0, n0, true, StegoEffect::ScanJpegs)
            }
        },
        AppState::StegoEmbed => {
            if hit.is_back {
                stego_out(s1, n1, out, goto(s0, AppState::ExportChoice), n0, true, StegoEffect::NoEffect)
            } else if !ctx.seed_loaded {
                stego_out(s1, n1, out, goto(s0, AppState::ExportChoice), n0, true, StegoEffect::Refuse { reason: StegoRefusal::NoSeed })
            } else {
                stego_out(s1, n1, out, goto(s0, AppState::StegoResult), n0, true, StegoEffect::MarkEmbedded)
            }
        },
        AppState::StegoResult | AppState::FwUpdateResult => {
            went_home(s0, s1) && n1 == n0 && out == Some((true, StegoEffect::NoEffect))
        },
        AppState::StegoJpegPick => {
            if hit.is_back {
                stego_out(s1, n1, out, goto(s0, AppState::ExportChoice), n0, true, StegoEffect::NoEffect)
            } else {
                let (sel, t) = pick_tap_spec(n0.jpeg_selected, n0.jpeg_count, hit);
                let n = StegoNav { jpeg_selected: sel, ..n0 };
                match t {
                    PickTap::Pick { index } =>
                        stego_out(s1, n1, out, goto(s0, AppState::StegoJpegDescChoice), n, true, StegoEffect::ClearDescriptor),
                    _ => stego_out(s1, n1, out, s0, n, false, StegoEffect::NoEffect),
                }
            }
        },
        AppState::StegoJpegDescChoice | AppState::StegoImportDescChoice => {
            let import = s0.app.state == AppState::StegoImportDescChoice;
            if hit.is_back {
                stego_out(s1, n1, out, goto(s0, if import { AppState::StegoImportPick } else { AppState::StegoJpegPick }),
                    n0, true, StegoEffect::NoEffect)
            } else if type_button(x, y) {
                stego_out(s1, n1, out, goto(s0, if import { AppState::StegoImportPass } else { AppState::StegoJpegDesc }),
                    n0, true, StegoEffect::ClearEntry)
            } else if load_button(x, y) {
                stego_out(s1, n1, out, s0, n0, false, StegoEffect::ScanTxt)
            } else {
                stego_out(s1, n1, out, s0, n0, false, StegoEffect::NoEffect)
            }
        },
        AppState::StegoJpegDescFile | AppState::StegoImportDescFile => {
            let import = s0.app.state == AppState::StegoImportDescFile;
            if hit.is_back {
                stego_out(s1, n1, out, goto(s0, if import { AppState::StegoImportDescChoice } else { AppState::StegoJpegDescChoice }),
                    n0, true, StegoEffect::NoEffect)
            } else {
                match hit.list {
                    Some(r) => if r < PICK_PAGE && r < n0.txt_count {
                        stego_out(s1, n1, out, s0, n0, false, StegoEffect::ReadTxt { index: r })
                    } else {
                        stego_out(s1, n1, out, s0, n0, false, StegoEffect::NoEffect)
                    },
                    None => stego_out(s1, n1, out, s0, n0, false, StegoEffect::NoEffect),
                }
            }
        },
        AppState::StegoJpegDesc =>
            keyboard_touch(s0, n0, ctx, hit, AppState::StegoJpegDescChoice, StegoEffect::ClearEntry, Some(AppState::StegoJpegDescPreview),
                StegoEffect::TakeDescriptor, s1, n1, out),
        AppState::StegoJpegDescPreview => {
            if hit.is_back {
                stego_out(s1, n1, out, goto(s0, AppState::StegoJpegDescChoice), n0, true, StegoEffect::NoEffect)
            } else if in_span(y, 185, 225) && in_span(x, 170, 300) {
                stego_out(s1, n1, out, goto(s0, AppState::StegoJpegPpAsk), n0, true, StegoEffect::ClearHint)
            } else if in_span(y, 185, 225) && in_span(x, 20, 150) {
                stego_out(s1, n1, out, goto(s0, AppState::StegoJpegDescChoice), n0, true, StegoEffect::NoEffect)
            } else {
                stego_out(s1, n1, out, s0, n0, false, StegoEffect::NoEffect)
            }
        },
        AppState::StegoJpegPpAsk => {
            if hit.is_back {
                stego_out(s1, n1, out, goto(s0, AppState::StegoJpegDescPreview), n0, true, StegoEffect::NoEffect)
            } else if in_span(y, 175, 215) && in_span(x, 20, 150) {
                stego_out(s1, n1, out, goto(s0, AppState::StegoJpegConfirm), n0, true, StegoEffect::ClearHint)
            } else if in_span(y, 175, 215) && in_span(x, 170, 300) {
                stego_out(s1, n1, out, goto(s0, AppState::StegoJpegPpInfo), n0, true, StegoEffect::NoEffect)
            } else {
                stego_out(s1, n1, out, s0, n0, false, StegoEffect::NoEffect)
            }
        },
        AppState::StegoJpegPpInfo => {
            if hit.is_back {
                stego_out(s1, n1, out, goto(s0, AppState::StegoJpegPpAsk), n0, true, StegoEffect::NoEffect)
            } else {
                match hint_row_spec(x, y) {
                    Some(row) => {
                        let n = StegoNav { hint_selected: row, ..n0 };
                        if row == CUSTOM_HINT_ROW {
                            stego_out(s1, n1, out, goto(s0, AppState::StegoJpegPpEntry), n, true, StegoEffect::ClearEntry)
                        } else {
                            stego_out(s1, n1, out, goto(s0, AppState::StegoJpegConfirm), n, true, StegoEffect::EncryptPresetHint { row })
                        }
                    },
                    None => stego_out(s1, n1, out, s0, n0, false, StegoEffect::NoEffect),
                }
            }
        },
        AppState::StegoJpegPpEntry =>
            keyboard_touch(s0, n0, ctx, hit, AppState::StegoJpegPpInfo, StegoEffect::ClearEntry, Some(AppState::StegoJpegConfirm),
                StegoEffect::EncryptTypedHint, s1, n1, out),
        AppState::StegoJpegConfirm => {
            if hit.is_back {
                stego_out(s1, n1, out, goto(s0, AppState::StegoJpegPpAsk), n0, true, StegoEffect::NoEffect)
            } else if in_span(y, 182, 225) && in_span(x, 20, 150) {
                stego_out(s1, n1, out, goto(s0, AppState::ExportChoice), n0, true, StegoEffect::NoEffect)
            } else if in_span(y, 182, 225) && in_span(x, 170, 300) {
                if !ctx.seed_loaded {
                    stego_out(s1, n1, out, goto(s0, AppState::ExportChoice), n0, true, StegoEffect::Refuse { reason: StegoRefusal::NoSeed })
                } else {
                    stego_out(s1, n1, out, s0, n0, true, StegoEffect::WriteStego)
                }
            } else {
                stego_out(s1, n1, out, s0, n0, false, StegoEffect::NoEffect)
            }
        },
        AppState::StegoImportPick => {
            if hit.is_back {
                stego_out(s1, n1, out, goto(s0, AppState::ImportMenu), n0, true, StegoEffect::NoEffect)
            } else {
                let (sel, t) = pick_tap_spec(n0.import_selected, n0.import_count, hit);
                let n = StegoNav { import_selected: sel, ..n0 };
                match t {
                    PickTap::Pick { index } =>
                        stego_out(s1, n1, out, goto(s0, AppState::StegoImportDescChoice), n, true, StegoEffect::SelectImport),
                    PickTap::Nothing => stego_out(s1, n1, out, s0, n, false, StegoEffect::NoEffect),
                    _ => stego_out(s1, n1, out, s0, n, true, StegoEffect::NoEffect),
                }
            }
        },
        AppState::StegoImportPass =>
            keyboard_touch(s0, n0, ctx, hit, AppState::StegoImportDescChoice, StegoEffect::NoEffect, None,
                StegoEffect::DecryptImport, s1, n1, out),
        AppState::StegoHintReveal => {
            if hit.is_back {
                stego_out(s1, n1, out, goto(s0, AppState::SeedList), n0, true, StegoEffect::StoreWithoutPassphrase)
            } else {
                stego_out(s1, n1, out, goto(s0, AppState::StegoHintPassphrase), n0, true, StegoEffect::ClearEntry)
            }
        },
        AppState::StegoHintPassphrase =>
            keyboard_touch(s0, n0, ctx, hit, AppState::SeedList, StegoEffect::StoreWithoutPassphrase,
                Some(AppState::SeedList), StegoEffect::StoreWithPassphrase, s1, n1, out),
        _ => s1 == s0 && n1 == n0 && out is None,
    }
}

/// Answer a keyboard screen (see [`keyboard_touch`]).
fn keyboard_step(s: &mut UiState, ctx: StegoContext, hit: TouchHit, back: AppState, on_back: StegoEffect,
    ok_to: Option<AppState>, ok: StegoEffect) -> (out: Option<(bool, StegoEffect)>)
    ensures
        forall|n: StegoNav| keyboard_touch(*old(s), n, ctx, hit, back, on_back, ok_to, ok, *final(s), n, out),
        final(s).menus == old(s).menus,
        final(s).cam == old(s).cam,
{
    if hit.is_back {
        s.app.state = back;
        return Some((true, on_back));
    }
    if ctx.key == 6 {
        if let Some(st) = ok_to {
            s.app.state = st;
        }
        return Some((true, ok));
    }
    if ctx.key == 1 || ctx.key == 2 || ctx.key == 4 || ctx.key == 5 {
        return Some((false, StegoEffect::Key { key: ctx.key }));
    }
    Some((false, StegoEffect::NoEffect))
}

/// Handle a touch on the stego screens (see [`stego_touch_spec`]).
pub fn handle_stego_touch(s: &mut UiState, n: &mut StegoNav, ctx: StegoContext, hit: TouchHit)
    -> (out: Option<(bool, StegoEffect)>)
    requires
        old(s).wf(),
    ensures
        stego_touch_spec(*old(s), *old(n), ctx, hit, *final(s), *final(n), out),
        final(s).wf(),
{
    let x = hit.x;
    let y = hit.y;
    match s.app.state {
        AppState::StegoModeSelect => {
            if hit.is_back {
                s.app.state = AppState::ExportChoice;
                Some((true, StegoEffect::NoEffect))
            } else if !ctx.seed_loaded {
                s.app.state = AppState::ExportChoice;
                Some((true, StegoEffect::Refuse { reason: StegoRefusal::NoSeed }))
            } else if !ctx.card_present {
                s.app.state = AppState::ExportChoice;
                Some((true, StegoEffect::Refuse { reason: StegoRefusal::NoCard }))
            } else {
                Some((true, StegoEffect::ScanJpegs))
            }
        },
        AppState::StegoEmbed => {
            if hit.is_back {
                s.app.state = AppState::ExportChoice;
                Some((true, StegoEffect::NoEffect))
            } else if !ctx.seed_loaded {
                s.app.state = AppState::ExportChoice;
                Some((true, StegoEffect::Refuse { reason: StegoRefusal::NoSeed }))
            } else {
                s.app.state = AppState::StegoResult;
                Some((true, StegoEffect::MarkEmbedded))
            }
        },
        AppState::StegoResult | AppState::FwUpdateResult => {
            s.app.go_main_menu();
            Some((true, StegoEffect::NoEffect))
        },
        AppState::StegoJpegPick => {
            if hit.is_back {
                s.app.state = AppState::ExportChoice;
                return Some((true, StegoEffect::NoEffect));
            }
            let (sel, t) = pick_tap(n.jpeg_selected, n.jpeg_count, hit);
            n.jpeg_selected = sel;
            match t {
                PickTap::Pick { index } => {
                    s.app.state = AppState::StegoJpegDescChoice;
                    Some((true, StegoEffect::ClearDescriptor))
                },
                _ => Some((false, StegoEffect::NoEffect)),
            }
        },
        AppState::StegoJpegDescChoice | AppState::StegoImportDescChoice => {
            let import = match s.app.state { AppState::StegoImportDescChoice => true, _ => false };
            if hit.is_back {
                s.app.state = if import { AppState::StegoImportPick } else { AppState::StegoJpegPick };
                Some((true, StegoEffect::NoEffect))
            } else if 40 <= x && x < 280 && 68 <= y && y < 112 {
                s.app.state = if import { AppState::StegoImportPass } else { AppState::StegoJpegDesc };
                Some((true, StegoEffect::ClearEntry))
            } else if 40 <= x && x < 280 && 114 <= y && y < 158 {
                Some((false, StegoEffect::ScanTxt))
            } else {
                Some((false, StegoEffect::NoEffect))
            }
        },
        AppState::StegoJpegDescFile | AppState::StegoImportDescFile => {
            let import = match s.app.state { AppState::StegoImportDescFile => true, _ => false };
            if hit.is_back {
                s.app.state = if import { AppState::StegoImportDescChoice } else { AppState::StegoJpegDescChoice };
                return Some((true, StegoEffect::NoEffect));
            }
            match hit.list {
                Some(r) => {
                    if r < PICK_PAGE && r < n.txt_count {
                        Some((false, StegoEffect::ReadTxt { index: r }))
                    } else {
                        Some((false, StegoEffect::NoEffect))
                    }
                },
                None => Some((false, StegoEffect::NoEffect)),
            }
        },
        AppState::StegoJpegDesc => keyboard_step(s, ctx, hit, AppState::StegoJpegDescChoice, StegoEffect::ClearEntry,
            Some(AppState::StegoJpegDescPreview), StegoEffect::TakeDescriptor),
        AppState::StegoJpegDescPreview => {
            if hit.is_back {
                s.app.state = AppState::StegoJpegDescChoice;
                Some((true, StegoEffect::NoEffect))
            } else if within(y, 185, 225) && within(x, 170, 300) {
                s.app.state = AppState::StegoJpegPpAsk;
                Some((true, StegoEffect::ClearHint))
            } else if within(y, 185, 225) && within(x, 20, 150) {
                s.app.state = AppState::StegoJpegDescChoice;
                Some((true, StegoEffect::NoEffect))
            } else {
                Some((false, StegoEffect::NoEffect))
            }
        },
        AppState::StegoJpegPpAsk => {
            if hit.is_back {
                s.app.state = AppState::StegoJpegDescPreview;
                Some((true, StegoEffect::NoEffect))
            } else if within(y, 175, 215) && within(x, 20, 150) {
                s.app.state = AppState::StegoJpegConfirm;
                Some((true, StegoEffect::ClearHint))
            } else if within(y, 175, 215) && within(x, 170, 300) {
                s.app.state = AppState::StegoJpegPpInfo;
                Some((true, StegoEffect::NoEffect))
            } else {
                Some((false, StegoEffect::NoEffect))
            }
        },
        AppState::StegoJpegPpInfo => {
            if hit.is_back {
                s.app.state = AppState::StegoJpegPpAsk;
                return Some((true, StegoEffect::NoEffect));
            }
            match hint_row_at(x, y) {
                Some(row) => {
                    n.hint_selected = row;
                    if row == CUSTOM_HINT_ROW {
                        s.app.state = AppState::StegoJpegPpEntry;
                        Some((true, StegoEffect::ClearEntry))
                    } else {
                        s.app.state = AppState::StegoJpegConfirm;
                        Some((true, StegoEffect::EncryptPresetHint { row }))
                    }
                },
                None => Some((false, StegoEffect::NoEffect)),
            }
        },
        AppState::StegoJpegPpEntry => keyboard_step(s, ctx, hit, AppState::StegoJpegPpInfo, StegoEffect::ClearEntry,
            Some(AppState::StegoJpegConfirm), StegoEffect::EncryptTypedHint),
        AppState::StegoJpegConfirm => {
            if hit.is_back {
                s.app.state = AppState::StegoJpegPpAsk;
                Some((true, StegoEffect::NoEffect))
            } else if within(y, 182, 225) && within(x, 20, 150) {
                s.app.state = AppState::ExportChoice;
                Some((true, StegoEffect::NoEffect))
            } else if within(y, 182, 225) && within(x, 170, 300) {
                if !ctx.seed_loaded {
                    s.app.state = AppState::ExportChoice;
                    Some((true, StegoEffect::Refuse { reason: StegoRefusal::NoSeed }))
                } else {
                    Some((true, StegoEffect::WriteStego))
                }
            } else {
                Some((false, StegoEffect::NoEffect))
            }
        },
        AppState::StegoImportPick => {
            if hit.is_back {
                s.app.state = AppState::ImportMenu;
                return Some((true, StegoEffect::NoEffect));
            }
            let (sel, t) = pick_tap(n.import_selected, n.import_count, hit);
            n.import_selected = sel;
            match t {
                PickTap::Pick { index } => {
                    s.app.state = AppState::StegoImportDescChoice;
                    Some((true, StegoEffect::SelectImport))
                },
                PickTap::Nothing => Some((false, StegoEffect::NoEffect)),
                _ => Some((true, StegoEffect::NoEffect)),
            }
        },
        AppState::StegoImportPass => keyboard_step(s, ctx, hit, AppState::StegoImportDescChoice, StegoEffect::NoEffect,
            None, StegoEffect::DecryptImport),
        AppState::StegoHintReveal => {
            if hit.is_back {
                s.app.state = AppState::SeedList;
                Some((true, StegoEffect::StoreWithoutPassphrase))
            } else {
                s.app.state = AppState::StegoHintPassphrase;
                Some((true, StegoEffect::ClearEntry))
            }
        },
        AppState::StegoHintPassphrase => keyboard_step(s, ctx, hit, AppState::SeedList,
            StegoEffect::StoreWithoutPassphrase, Some(AppState::SeedList), StegoEffect::StoreWithPassphrase),
        _ => None,
    }
}

// ─── After the caller's work ───────────────────────────────────────

/// Where the export flow goes once the card was searched for pictures:
/// to the picture list (selection on the first) when pictures were found,
/// else back to the export menu with a refusal (the flag).
pub fn jpeg_scan_next(ok: bool, found: u8) -> (r: (AppState, bool))
    ensures
        r == (if ok && found > 0 { (AppState::StegoJpegPick, false) } else { (AppState::ExportChoice, true) }),
{
    if ok && found > 0 { (AppState::StegoJpegPick, false) } else { (AppState::ExportChoice, true) }
}

/// Where a descriptor choice goes once the card was searched for text
/// files: to the file list when some were found; `None` refuses and stays.
pub fn txt_scan_next(import: bool, ok: bool, found: u8) -> (r: Option<AppState>)
    ensures
        r == (if ok && found > 0 {
            Some(if import { AppState::StegoImportDescFile } else { AppState::StegoJpegDescFile })
        } else {
            None
        }),
{
    if ok && found > 0 {
        Some(if import { AppState::StegoImportDescFile } else { AppState::StegoJpegDescFile })
    } else {
        None
    }
}

/// Where a descriptor file list goes once the file was read: on export to
/// the descriptor preview, on import to the descriptor keyboard (pre-filled);
/// `None` refuses ("read failed") and stays.
pub fn txt_read_next(import: bool, ok: bool) -> (r: Option<AppState>)
    ensures
        r == (if ok { Some(if import { AppState::StegoImportPass } else { AppState::StegoJpegDescPreview }) } else { None }),
{
    if ok {
        Some(if import { AppState::StegoImportPass } else { AppState::StegoJpegDescPreview })
    } else {
        None
    }
}

/// Where the export flow goes once the picture was written: the result
/// screen, or the export menu when something failed.
pub fn stego_write_next(ok: bool) -> (st: AppState)
    ensures
        st == (if ok { AppState::StegoResult } else { AppState::ExportChoice }),
{
    if ok { AppState::StegoResult } else { AppState::ExportChoice }
}

/// Shortest encrypted seed backup that can be decrypted.
pub const MIN_BACKUP_LEN: usize = 57;

/// How a recovery attempt ends.
#[derive(Debug, Clone, Copy, PartialEq, Eq, Structural)]
pub enum ImportOutcome {
    /// No comment, too short a backup, a failed decryption or an invalid
    /// mnemonic: all answered alike, "wrong password", and the screen stays.
    WrongPassword,
    /// A recovery hint came along: show it (then ask for the passphrase).
    ShowHint,
    /// Store the seed without a passphrase and go to the seed list.
    StoreNow,
}

/// How a recovery attempt ends (see [`ImportOutcome`]).
pub open spec fn import_outcome_spec(comment_found: bool, decoded_len: usize, decrypted: bool, valid: bool,
    hint_len: usize) -> ImportOutcome
{
    if comment_found && decoded_len >= MIN_BACKUP_LEN && decrypted && valid {
        if hint_len > 0 { ImportOutcome::ShowHint } else { ImportOutcome::StoreNow }
    } else {
        ImportOutcome::WrongPassword
    }
}

/// How a recovery attempt ends, from what the caller found: a comment in
/// the picture, the length of the decoded backup, whether it decrypted,
/// whether the mnemonic checks, and the length of the recovered hint.
pub fn import_outcome(comment_found: bool, decoded_len: usize, decrypted: bool, valid: bool, hint_len: usize)
    -> (o: ImportOutcome)
    ensures
        o == import_outcome_spec(comment_found, decoded_len, decrypted, valid, hint_len),
{
    if comment_found && decoded_len >= MIN_BACKUP_LEN && decrypted && valid {
        if hint_len > 0 { ImportOutcome::ShowHint } else { ImportOutcome::StoreNow }
    } else {
        ImportOutcome::WrongPassword
    }
}

/// The screen a recovery attempt leads to: the hint, the seed list, or
/// (wrong password) none.
pub fn import_next(o: ImportOutcome) -> (st: Option<AppState>)
    ensures
        st == match o {
            ImportOutcome::WrongPassword => None,
            ImportOutcome::ShowHint => Some(AppState::StegoHintReveal),
            ImportOutcome::StoreNow => Some(AppState::SeedList),
        },
{
    match o {
        ImportOutcome::WrongPassword => None,
        ImportOutcome::ShowHint => Some(AppState::StegoHintReveal),
        ImportOutcome::StoreNow => Some(AppState::SeedList),
    }
}

} // verus!
