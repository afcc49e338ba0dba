//! Touch handling of the SD card screens: the import menu and its file
//! lists, deletion, the file-name and password keyboards, the overwrite
//! warning, the "encrypt?" questions and the signed-QR save popup.
//!
//! Card access, the keyboard itself and the cryptography are left to the
//! caller as an [`SdEffect`]; functions below tell it what follows.

use vstd::prelude::*;
use crate::input::AppState;
use crate::screens::{TouchHit, SubMenus, SignedQr, UiState, in_span, within, list_item, list_item_spec,
    reset_menu, goto, with_menus, went_home};
use crate::menu_touch::{paged_up, paged_down, has_next_page};
use crate::sdfile::{DirEntryInfo, HiddenRule, list_files, listed_names, parse_descriptor, descriptor_valid, descriptor_prefix};
use crate::kasfile::{Kas3Error, encrypt_kas3_file, decrypt_kas3_file, kas3_sealed, kas3_well_formed, kas3_open_spec,
    KAS3_OVERHEAD, KAS3_MAX_FILE};

verus! {

// ─── File lists ────────────────────────────────────────────────────

/// Files a list screen shows per page.
pub const FILES_PER_PAGE: u8 = 4;

/// What a tap on a file list does.
#[derive(Debug, Clone, Copy, PartialEq, Eq, Structural)]
pub enum FileTap {
    Nothing,
    PageUp,
    PageDown,
    /// Open the file at this index of the list.
    Open { index: u8 },
    /// Ask to delete the file at this index of the list.
    Delete { index: u8 },
}

/// A tap on a file list showing `count` files from `scroll` on: the left
/// arrow (x < 40, y ≥ 42) pages back, the right arrow (x ≥ 280, y ≥ 42)
/// pages forward while another page holds files; a row opens its file, or
/// asks to delete it when the list allows that and the tap is on the right
/// edge of the row (x > 228). Gives the new scroll offset.
pub open spec fn file_tap_spec(scroll: u8, count: u8, hit: TouchHit, deletable: bool) -> (u8, FileTap) {
    if hit.x < 40 && hit.y >= 42 && scroll > 0 {
        ((if scroll >= FILES_PER_PAGE { scroll - FILES_PER_PAGE } else { 0 }) as u8, FileTap::PageUp)
    } else if hit.x >= 280 && hit.y >= 42 && scroll + FILES_PER_PAGE < count {
        ((scroll + FILES_PER_PAGE) as u8, FileTap::PageDown)
    } else {
        match hit.list {
            Some(r) => {
                if r < FILES_PER_PAGE && r + scroll < count {
                    if deletable && hit.x > 228 {
                        (scroll, FileTap::Delete { index: (r + scroll) as u8 })
                    } else {
                        (scroll, FileTap::Open { index: (r + scroll) as u8 })
                    }
                } else {
                    (scroll, FileTap::Nothing)
                }
            },
            None => (scroll, FileTap::Nothing),
        }
    }
}

/// A tap on a file list (see [`file_tap_spec`]).
pub fn file_tap(scroll: u8, count: u8, hit: TouchHit, deletable: bool) -> (r: (u8, FileTap))
    ensures
        r == file_tap_spec(scroll, count, hit, deletable),
{
    if hit.x < 40 && hit.y >= 42 && scroll > 0 {
        let s = if scroll >= FILES_PER_PAGE { scroll - FILES_PER_PAGE } else { 0 };
        return (s, FileTap::PageUp);
    }
    if hit.x >= 280 && hit.y >= 42 && (scroll as u16) + (FILES_PER_PAGE as u16) < (count as u16) {
        return (scroll + FILES_PER_PAGE, FileTap::PageDown);
    }
    match hit.list {
        Some(r) => {
            if r < FILES_PER_PAGE && (r as u16) + (scroll as u16) < (count as u16) {
                let index = r + scroll;
                if deletable && hit.x > 228 {
                    (scroll, FileTap::Delete { index })
                } else {
                    (scroll, FileTap::Open { index })
                }
            } else {
                (scroll, FileTap::Nothing)
            }
        },
        None => (scroll, FileTap::Nothing),
    }
}

// ─── Loaded files ──────────────────────────────────────────────────

/// What a file picked from the seed-backup list holds.
#[derive(Debug, Clone, Copy, PartialEq, Eq, Structural)]
pub enum BackupFileKind {
    /// A covenant backup or invite ("COVB" / "COVI"): shown as a QR code.
    Covenant,
    /// An encrypted seed backup ("KAS" 0x01).
    EncryptedSeed,
    /// An encrypted extended private key ("KAS" 0x02).
    EncryptedXprv,
    /// A plain extended private key ("xprv...").
    PlainXprv,
    /// A raw private key in 64 hex digits.
    HexKey,
    /// Anything else.
    Unknown,
}

/// The length of a file once trailing newlines, spaces and zero bytes are cut.
pub open spec fn trimmed_len(d: Seq<u8>, n: nat) -> nat
    decreases n,
{
    if n == 0 {
        0
    } else if d[n - 1] == 0x0a || d[n - 1] == 0x0d || d[n - 1] == 0x20 || d[n - 1] == 0 {
        trimmed_len(d, (n - 1) as nat)
    } else {
        n
    }
}

/// What a loaded seed-backup file holds, judged on its first `len` bytes
/// once trailing whitespace is cut.
pub open spec fn backup_kind_spec(d: Seq<u8>, len: nat) -> BackupFileKind {
    let n = trimmed_len(d, len);
    if n >= 4 && d[0] == 0x43 && d[1] == 0x4f && d[2] == 0x56 && (d[3] == 0x42 || d[3] == 0x49) {
        BackupFileKind::Covenant
    } else if n >= 4 && d[0] == 0x4b && d[1] == 0x41 && d[2] == 0x53 && d[3] == 0x01 {
        BackupFileKind::EncryptedSeed
    } else if n >= 4 && d[0] == 0x4b && d[1] == 0x41 && d[2] == 0x53 && d[3] == 0x02 {
        BackupFileKind::EncryptedXprv
    } else if n >= 4 && d[0] == 0x78 && d[1] == 0x70 && d[2] == 0x72 && d[3] == 0x76 {
        BackupFileKind::PlainXprv
    } else if n == 64 {
        BackupFileKind::HexKey
    } else {
        BackupFileKind::Unknown
    }
}

/// Cut trailing newlines, spaces and zero bytes from the first `len` bytes.
pub fn trim_file_end(d: &[u8], len: usize) -> (n: usize)
    requires
        len <= d@.len(),
    ensures
        n == trimmed_len(d@, len as nat),
{
    let mut n = len;
    while n > 0 && (d[n - 1] == 0x0a || d[n - 1] == 0x0d || d[n - 1] == 0x20 || d[n - 1] == 0)
        invariant
            n <= len <= d@.len(),
            trimmed_len(d@, n as nat) == trimmed_len(d@, len as nat),
        decreases n,
    {
        n = n - 1;
    }
    n
}

/// What a loaded seed-backup file holds (see [`backup_kind_spec`]).
pub fn backup_kind(d: &[u8], len: usize) -> (k: BackupFileKind)
    requires
        len <= d@.len(),
    ensures
        k == backup_kind_spec(d@, len as nat),
{
    let n = trim_file_end(d, len);
    if n >= 4 && d[0] == 0x43 && d[1] == 0x4f && d[2] == 0x56 && (d[3] == 0x42 || d[3] == 0x49) {
        BackupFileKind::Covenant
    } else if n >= 4 && d[0] == 0x4b && d[1] == 0x41 && d[2] == 0x53 && d[3] == 0x01 {
        BackupFileKind::EncryptedSeed
    } else if n >= 4 && d[0] == 0x4b && d[1] == 0x41 && d[2] == 0x53 && d[3] == 0x02 {
        BackupFileKind::EncryptedXprv
    } else if n >= 4 && d[0] == 0x78 && d[1] == 0x70 && d[2] == 0x72 && d[3] == 0x76 {
        BackupFileKind::PlainXprv
    } else if n == 64 {
        BackupFileKind::HexKey
    } else {
        BackupFileKind::Unknown
    }
}

/// A file found on the card may be listed as a seed backup: an encrypted
/// seed (at least 57 bytes), an encrypted key (at least 40 bytes), a plain
/// extended key (at least 100 bytes), or 64 to 66 bytes starting with 64
/// hex digits. `head` is the file's first block.
pub open spec fn backup_candidate_spec(size: u32, head: Seq<u8>) -> bool {
    ||| size >= 57 && head[0] == 0x4b && head[1] == 0x41 && head[2] == 0x53 && head[3] == 0x01
    ||| size >= 40 && head[0] == 0x4b && head[1] == 0x41 && head[2] == 0x53 && head[3] == 0x02
    ||| size >= 100 && head[0] == 0x78 && head[1] == 0x70 && head[2] == 0x72 && head[3] == 0x76
    ||| 64 <= size <= 66 && forall|i: int| 0 <= i < 64 ==> #[trigger] crate::sdfile::is_hex_digit(head[i])
}

/// A file found on the card may be listed as a seed backup (see
/// [`backup_candidate_spec`]).
pub fn backup_candidate(size: u32, head: &[u8; 512]) -> (b: bool)
    ensures
        b == backup_candidate_spec(size, head@),
{
    (size >= 57 && head[0] == 0x4b && head[1] == 0x41 && head[2] == 0x53 && head[3] == 0x01)
        || (size >= 40 && head[0] == 0x4b && head[1] == 0x41 && head[2] == 0x53 && head[3] == 0x02)
        || (size >= 100 && head[0] == 0x78 && head[1] == 0x70 && head[2] == 0x72 && head[3] == 0x76)
        || (64 <= size && size <= 66 && starts_with_64_hex(head))
}

fn starts_with_64_hex(head: &[u8; 512]) -> (b: bool)
    ensures
        b == forall|i: int| 0 <= i < 64 ==> #[trigger] crate::sdfile::is_hex_digit(head@[i]),
{
    let mut i: usize = 0;
    while i < 64
        invariant
            i <= 64,
            forall|k: int| 0 <= k < i ==> #[trigger] crate::sdfile::is_hex_digit(head@[k]),
        decreases 64 - i,
    {
        let b = head[i];
        if !((0x30 <= b && b <= 0x39) || (0x61 <= b && b <= 0x66) || (0x41 <= b && b <= 0x46)) {
            assert(!crate::sdfile::is_hex_digit(head@[i as int]));
            return false;
        }
        i = i + 1;
    }
    true
}

/// What a loaded transaction-list file holds.
#[derive(Debug, Clone, Copy, PartialEq, Eq, Structural)]
pub enum TxFileKind {
    /// Encrypted ("KAS" 0x03): ask for its password.
    Encrypted,
    /// A multisig descriptor ("multi_hd(").
    Descriptor,
    /// A multisig address ("kaspa:" or "kaspatest:").
    Address,
    /// A signed or unsigned transaction.
    Transaction,
}

/// What a transaction-list file holds. Read straight from the card, an
/// address needs at least 10 bytes; once decrypted, "kaspa:" needs 6.
pub open spec fn tx_file_kind_spec(d: Seq<u8>, from_card: bool) -> TxFileKind {
    let n = d.len();
    if from_card && n >= 4 && d[0] == 0x4b && d[1] == 0x41 && d[2] == 0x53 && d[3] == 0x03 {
        TxFileKind::Encrypted
    } else if n >= 9 && d.take(9) == seq![0x6du8, 0x75, 0x6c, 0x74, 0x69, 0x5f, 0x68, 0x64, 0x28] {
        TxFileKind::Descriptor
    } else if (if from_card { n >= 10 } else { n >= 6 }) && d.take(6) == seq![0x6bu8, 0x61, 0x73, 0x70, 0x61, 0x3a] {
        TxFileKind::Address
    } else if n >= 10 && d.take(10) == seq![0x6bu8, 0x61, 0x73, 0x70, 0x61, 0x74, 0x65, 0x73, 0x74, 0x3a] {
        TxFileKind::Address
    } else {
        TxFileKind::Transaction
    }
}

fn starts_with_bytes(d: &[u8], p: &[u8]) -> (b: bool)
    ensures
        b == (p@.len() <= d@.len() && d@.take(p@.len() as int) == p@),
{
    if p.len() > d.len() {
        return false;
    }
    let mut i: usize = 0;
    while i < p.len()
        invariant
            i <= p@.len() <= d@.len(),
            forall|k: int| 0 <= k < i ==> d@[k] == p@[k],
        decreases p@.len() - i,
    {
        if d[i] != p[i] {
            assert(d@.take(p@.len() as int)[i as int] != p@[i as int]);
            return false;
        }
        i = i + 1;
    }
    assert(d@.take(p@.len() as int) =~= p@);
    true
}

/// What a transaction-list file holds (see [`tx_file_kind_spec`]).
pub fn tx_file_kind(d: &[u8], from_card: bool) -> (k: TxFileKind)
    ensures
        k == tx_file_kind_spec(d@, from_card),
{
    let n = d.len();
    if from_card && n >= 4 && d[0] == 0x4b && d[1] == 0x41 && d[2] == 0x53 && d[3] == 0x03 {
        return TxFileKind::Encrypted;
    }
    let descriptor: [u8; 9] = [0x6d, 0x75, 0x6c, 0x74, 0x69, 0x5f, 0x68, 0x64, 0x28];
    let mainnet: [u8; 6] = [0x6b, 0x61, 0x73, 0x70, 0x61, 0x3a];
    let testnet: [u8; 10] = [0x6b, 0x61, 0x73, 0x70, 0x61, 0x74, 0x65, 0x73, 0x74, 0x3a];
    assert(descriptor@ =~= seq![0x6du8, 0x75, 0x6c, 0x74, 0x69, 0x5f, 0x68, 0x64, 0x28]);
    assert(mainnet@ =~= seq![0x6bu8, 0x61, 0x73, 0x70, 0x61, 0x3a]);
    assert(testnet@ =~= seq![0x6bu8, 0x61, 0x73, 0x70, 0x61, 0x74, 0x65, 0x73, 0x74, 0x3a]);
    if starts_with_bytes(d, descriptor.as_slice()) {
        return TxFileKind::Descriptor;
    }
    let min_addr: usize = if from_card { 10 } else { 6 };
    if n >= min_addr && starts_with_bytes(d, mainnet.as_slice()) {
        return TxFileKind::Address;
    }
    if starts_with_bytes(d, testnet.as_slice()) {
        return TxFileKind::Address;
    }
    TxFileKind::Transaction
}

// ─── The SD screens ────────────────────────────────────────────────

/// What is being saved to the card from a file-name keyboard.
#[derive(Debug, Clone, Copy, PartialEq, Eq, Structural)]
pub enum SaveKind {
    SeedBackup,
    Signature,
    Xprv,
    Transaction,
    Kpub,
    MultisigAddress,
    MultisigDescriptor,
}

/// The file-name keyboard of each kind.
pub open spec fn name_screen(k: SaveKind) -> AppState {
    match k {
        SaveKind::SeedBackup => AppState::SdSeedFilename,
        SaveKind::Signature => AppState::SdSigFilename,
        SaveKind::Xprv => AppState::SdXprvFilename,
        SaveKind::Transaction => AppState::SdKsptFilename,
        SaveKind::Kpub => AppState::SdKpubFilename,
        SaveKind::MultisigAddress => AppState::SdMsAddrFilename,
        SaveKind::MultisigDescriptor => AppState::SdMsDescFilename,
    }
}

/// The kind of a file-name keyboard screen.
pub open spec fn save_kind_of(s: AppState) -> Option<SaveKind> {
    match s {
        AppState::SdSeedFilename => Some(SaveKind::SeedBackup),
        AppState::SdSigFilename => Some(SaveKind::Signature),
        AppState::SdXprvFilename => Some(SaveKind::Xprv),
        AppState::SdKsptFilename => Some(SaveKind::Transaction),
        AppState::SdKpubFilename => Some(SaveKind::Kpub),
        AppState::SdMsAddrFilename => Some(SaveKind::MultisigAddress),
        AppState::SdMsDescFilename => Some(SaveKind::MultisigDescriptor),
        _ => None,
    }
}

/// The extension given to a saved file: KAS for seeds and keys, KSP for
/// transactions, TXT for the rest.
pub open spec fn save_ext(k: SaveKind) -> [u8; 3] {
    match k {
        SaveKind::SeedBackup | SaveKind::Xprv => [0x4b, 0x41, 0x53],
        SaveKind::Transaction => [0x4b, 0x53, 0x50],
        _ => [0x54, 0x58, 0x54],
    }
}

/// The screen after a file name was chosen (a signature is written at once).
pub open spec fn save_next(k: SaveKind) -> AppState {
    match k {
        SaveKind::SeedBackup => AppState::SdBackupPassphrase,
        SaveKind::Xprv => AppState::SdXprvExportPassphrase,
        SaveKind::Transaction => AppState::SdKsptEncryptAsk,
        SaveKind::Kpub => AppState::SdKpubEncryptAsk,
        SaveKind::MultisigAddress => AppState::SdMsAddrEncryptAsk,
        SaveKind::MultisigDescriptor => AppState::SdMsDescEncryptAsk,
        SaveKind::Signature => AppState::MainMenu,
    }
}

/// Where the back button of a file-name keyboard leads.
pub open spec fn save_back(k: SaveKind) -> AppState {
    match k {
        SaveKind::SeedBackup => AppState::SeedBackupMenu,
        SaveKind::Signature => AppState::MainMenu,
        SaveKind::Xprv => AppState::SigningKeysMenu,
        SaveKind::Transaction => AppState::ShowQrPopup,
        SaveKind::Kpub => AppState::WatchOnlyMenu,
        SaveKind::MultisigAddress => AppState::MultisigShowAddress,
        SaveKind::MultisigDescriptor => AppState::MultisigDescriptor,
    }
}

/// The prefix and extension of the automatic name of a kind of file:
/// SD…KAS for seed backups, MD…TXT for descriptors, TX…KSP otherwise.
pub open spec fn auto_name_parts_spec(k: SaveKind) -> (Seq<u8>, Seq<u8>) {
    match k {
        SaveKind::SeedBackup => (seq![0x53u8, 0x44], seq![0x4bu8, 0x41, 0x53]),
        SaveKind::MultisigDescriptor => (seq![0x4du8, 0x44], seq![0x54u8, 0x58, 0x54]),
        _ => (seq![0x54u8, 0x58], seq![0x4bu8, 0x53, 0x50]),
    }
}

/// The prefix and extension of the automatic name (see [`auto_name_parts_spec`]).
pub fn auto_name_parts(k: SaveKind) -> (r: ([u8; 2], [u8; 3]))
    ensures
        (r.0@, r.1@) == auto_name_parts_spec(k),
{
    let r: ([u8; 2], [u8; 3]) = match k {
        SaveKind::SeedBackup => ([0x53, 0x44], [0x4b, 0x41, 0x53]),
        SaveKind::MultisigDescriptor => ([0x4d, 0x44], [0x54, 0x58, 0x54]),
        _ => ([0x54, 0x58], [0x4b, 0x53, 0x50]),
    };
    assert(r.0@ =~= auto_name_parts_spec(k).0 && r.1@ =~= auto_name_parts_spec(k).1);
    r
}

/// The extension of a saved file (see [`save_ext`]).
pub fn save_extension(k: SaveKind) -> (e: [u8; 3])
    ensures
        e == save_ext(k),
{
    match k {
        SaveKind::SeedBackup | SaveKind::Xprv => [0x4b, 0x41, 0x53],
        SaveKind::Transaction => [0x4b, 0x53, 0x50],
        _ => [0x54, 0x58, 0x54],
    }
}

/// The password keyboards, with where their back button leads.
pub open spec fn password_back(s: AppState, name_ext: [u8; 3], txt_origin: u8) -> Option<AppState> {
    match s {
        AppState::SdBackupPassphrase => Some(AppState::SeedBackupMenu),
        AppState::SdRestorePassphrase => Some(AppState::SdFileList),
        AppState::SdXprvExportPassphrase => Some(AppState::SigningKeysMenu),
        AppState::SdXprvImportPassphrase => Some(AppState::SdXprvFileList),
        AppState::SdKsptEncryptPass => Some(
            if name_ext[0] == 0x4b && name_ext[1] == 0x53 && name_ext[2] == 0x50 {
                AppState::SdKsptEncryptAsk
            } else if name_ext[0] == 0x54 && name_ext[1] == 0x58 && name_ext[2] == 0x54 {
                if txt_origin == 1 { AppState::SdKpubEncryptAsk }
                else if txt_origin == 2 { AppState::SdMsDescEncryptAsk }
                else { AppState::SdMsAddrEncryptAsk }
            } else {
                AppState::SdKsptFileList
            }),
        _ => None,
    }
}

/// Work left to the caller after a touch on an SD screen.
#[derive(Debug, Clone, Copy, PartialEq, Eq, Structural)]
pub enum SdEffect {
    NoEffect,
    /// Number the next file of this kind from the card (see
    /// [`auto_name_parts`]) and put the name into the file-name keyboard.
    PrefillName { kind: SaveKind },
    /// Clear the keyboard entry.
    ClearEntry,
    /// Let the keyboard act on this key (next page, backspace, space, redraw).
    Key { key: u8, allow_space: bool },
    /// Build the file name with the extension of this kind (see
    /// [`save_ext`]) and check whether the card has it already; then see
    /// [`name_checked`].
    CheckName { kind: SaveKind },
    /// Write the message signature in hex under the typed name, clear the entry.
    SaveSignature,
    /// The password was confirmed on this screen: run its operation (on the
    /// transaction password screen see [`password_step`], then
    /// [`seal_signed_output`] or [`open_signed_file`]).
    PasswordEntered { screen: AppState },
    /// Mark the transaction for encryption and clear the entry.
    EncryptTransaction,
    /// Stage the shown data for encryption (`origin` 1 kpub, 0 multisig
    /// address, 2 multisig descriptor) and clear the entry.
    StageForEncryption { origin: u8 },
    /// Write the shown data to the card unencrypted.
    WritePlain,
    /// Open the file at this index of the list.
    OpenFile { index: u8 },
    /// Select the file at this index and clear the entry for its password.
    SelectForPassword { index: u8 },
    /// Select the file at this index for deletion.
    SelectForDelete { index: u8 },
    /// Run the hold-to-delete gesture, then delete the selected file.
    HoldToDelete,
    /// Click.
    Click,
    /// Scan the card for the files of import item `item` (items 2 to 4
    /// also set which kind of text file is imported).
    ScanCard { item: u8 },
    /// Refuse: "No SD card detected" (items 2 to 4 still set which kind of
    /// text file is imported).
    NoCard { item: u8 },
}

/// What the SD screens read besides the interface state.
#[derive(Clone, Copy)]
pub struct SdContext {
    /// An SD card was detected at boot.
    pub card_present: bool,
    /// The signed buffer holds a multisig descriptor.
    pub holds_descriptor: bool,
    /// A multisig configuration is set up.
    pub ms_building: bool,
    /// The key under the touch, from the keyboard's hit test.
    pub key: u8,
    /// The extension of the chosen file name.
    pub name_ext: [u8; 3],
    /// What was staged for encryption (see [`SdEffect::StageForEncryption`]).
    pub txt_origin: u8,
    /// The file selected for deletion is a transaction (KSP).
    pub selected_is_tx: bool,
}

/// The SD screens' own navigation state.
#[derive(Clone, Copy)]
pub struct SdNav {
    /// First file shown by the file lists.
    pub scroll: u8,
    /// Files in the current list.
    pub count: u8,
    /// Where the overwrite warning continues, or goes back.
    pub overwrite_next: AppState,
    pub overwrite_back: AppState,
    /// Where the delete confirmation returns (the main menu when unset).
    pub delete_return: AppState,
}

/// The left button of a two-button dialog.
pub open spec fn dialog_left(x: u16, y: u16) -> bool {
    in_span(x, 30, 155) && in_span(y, 140, 185)
}

/// The right button of a two-button dialog.
pub open spec fn dialog_right(x: u16, y: u16) -> bool {
    in_span(x, 165, 290) && in_span(y, 140, 185)
}

/// An SD screen's answer.
pub open spec fn sd_out(s1: UiState, n1: SdNav, out: Option<(bool, SdEffect)>, s: UiState, n: SdNav, redraw: bool, e: SdEffect) -> bool {
    s1 == s && n1 == n && out == Some((redraw, e))
}

/// A file-name keyboard of kind `k`.
pub open spec fn name_screen_touch(s0: UiState, n0: SdNav, ctx: SdContext, hit: TouchHit, k: SaveKind,
    s1: UiState, n1: SdNav, out: Option<(bool, SdEffect)>) -> bool
{
    if hit.is_back {
        if k == SaveKind::Signature {
            went_home(s0, s1) && n1 == n0 && out == Some((true, SdEffect::ClearEntry))
        } else {
            sd_out(s1, n1, out, goto(s0, save_back(k)), n0, true, SdEffect::ClearEntry)
        }
    } else if ctx.key == 6 {
        if k == SaveKind::Signature {
            went_home(s0, s1) && n1 == n0 && out == Some((true, SdEffect::SaveSignature))
        } else {
            sd_out(s1, n1, out, s0, n0, false, SdEffect::CheckName { kind: k })
        }
    } else if ctx.key == 1 || ctx.key == 2 || ctx.key == 4 || ctx.key == 5 {
        sd_out(s1, n1, out, s0, n0, false, SdEffect::Key { key: ctx.key, allow_space: false })
    } else {
        sd_out(s1, n1, out, s0, n0, false, SdEffect::NoEffect)
    }
}

/// The screen a delete confirmation returns to.
pub open spec fn delete_return_spec(n: SdNav, selected_is_tx: bool) -> AppState {
    if n.delete_return != AppState::MainMenu {
        n.delete_return
    } else if selected_is_tx {
        AppState::SdKsptFileList
    } else {
        AppState::SdFileList
    }
}

/// A file list screen: back to the import menu, paging, opening, deletion
/// (which returns to `delete_back` when given).
pub open spec fn file_list_touch(s0: UiState, n0: SdNav, hit: TouchHit, deletable: bool, delete_back: Option<AppState>,
    s1: UiState, n1: SdNav, out: Option<(bool, SdEffect)>) -> bool
{
    if hit.is_back {
        sd_out(s1, n1, out, goto(s0, AppState::SdImportMenu), SdNav { scroll: 0, ..n0 }, true, SdEffect::NoEffect)
    } else {
        let (sc, t) = file_tap_spec(n0.scroll, n0.count, hit, deletable);
        let n = SdNav { scroll: sc, ..n0 };
        match t {
            FileTap::Nothing => sd_out(s1, n1, out, s0, n, false, SdEffect::NoEffect),
            FileTap::PageUp | FileTap::PageDown => sd_out(s1, n1, out, s0, n, true, SdEffect::NoEffect),
            FileTap::Open { index } => sd_out(s1, n1, out, s0, n, true, SdEffect::OpenFile { index }),
            FileTap::Delete { index } => sd_out(s1, n1, out, goto(s0, AppState::SdDeleteConfirm),
                match delete_back { Some(b) => SdNav { delete_return: b, ..n }, None => n },
                true, SdEffect::SelectForDelete { index }),
        }
    }
}

/// What a touch does on the SD screens. Other screens are left alone and
/// answered `None`.
pub open spec fn sd_touch_spec(s0: UiState, n0: SdNav, ctx: SdContext, hit: TouchHit, s1: UiState, n1: SdNav,
    out: Option<(bool, SdEffect)>) -> bool
{
    let st = s0.app.state;
    let q = s0.qr;
    if save_kind_of(st) is Some {
        name_screen_touch(s0, n0, ctx, hit, save_kind_of(st)->0, s1, n1, out)
    } else if password_back(st, ctx.name_ext, ctx.txt_origin) is Some {
        if hit.is_back {
            sd_out(s1, n1, out, goto(s0, password_back(st, ctx.name_ext, ctx.txt_origin)->0), n0, true, SdEffect::ClearEntry)
        } else if ctx.key == 6 {
            sd_out(s1, n1, out, s0, n0, false, SdEffect::PasswordEntered { screen: st })
        } else if ctx.key == 1 || ctx.key == 2 || ctx.key == 4 || ctx.key == 5 {
            sd_out(s1, n1, out, s0, n0, false, SdEffect::Key { key: ctx.key, allow_space: true })
        } else {
            sd_out(s1, n1, out, s0, n0, false, SdEffect::NoEffect)
        }
    } else {
        match st {
            AppState::SdBackupWarning => {
                if hit.is_back {
                    sd_out(s1, n1, out, goto(s0, AppState::SeedBackupMenu), n0, true, SdEffect::NoEffect)
                } else if in_span(hit.x, 85, 235) && hit.y >= 205 {
                    sd_out(s1, n1, out, goto(s0, AppState::SdSeedFilename), n0, true,
                        SdEffect::PrefillName { kind: SaveKind::SeedBackup })
                } else {
                    sd_out(s1, n1, out, s0, n0, false, SdEffect::NoEffect)
                }
            },
            AppState::SdOverwriteWarning => {
                if hit.is_back {
                    sd_out(s1, n1, out, goto(s0, n0.overwrite_back), n0, true, SdEffect::NoEffect)
                } else if dialog_left(hit.x, hit.y) {
                    sd_out(s1, n1, out, goto(s0, n0.overwrite_next), n0, true, SdEffect::ClearEntry)
                } else if dialog_right(hit.x, hit.y) {
                    sd_out(s1, n1, out, goto(s0, n0.overwrite_back), n0, false, SdEffect::NoEffect)
                } else {
                    sd_out(s1, n1, out, s0, n0, false, SdEffect::NoEffect)
                }
            },
            AppState::SdKsptEncryptAsk => {
                if hit.is_back {
                    sd_out(s1, n1, out, goto(s0, AppState::ShowQrPopup), n0, true, SdEffect::NoEffect)
                } else if dialog_left(hit.x, hit.y) {
                    sd_out(s1, n1, out, goto(s0, AppState::SdKsptEncryptPass), n0, true, SdEffect::EncryptTransaction)
                } else if dialog_right(hit.x, hit.y) {
                    went_home(s0, s1) && n1 == n0 && out == Some((true, SdEffect::WritePlain))
                } else {
                    sd_out(s1, n1, out, s0, n0, true, SdEffect::NoEffect)
                }
            },
            AppState::SdKpubEncryptAsk => {
                if hit.is_back {
                    sd_out(s1, n1, out, goto(s0, AppState::WatchOnlyMenu), n0, true, SdEffect::NoEffect)
                } else if dialog_left(hit.x, hit.y) {
                    sd_out(s1, n1, out, goto(s0, AppState::SdKsptEncryptPass), n0, true, SdEffect::StageForEncryption { origin: 1 })
                } else if dialog_right(hit.x, hit.y) {
                    sd_out(s1, n1, out, goto(s0, AppState::WatchOnlyMenu), n0, true, SdEffect::WritePlain)
                } else {
                    sd_out(s1, n1, out, s0, n0, false, SdEffect::NoEffect)
                }
            },
            AppState::SdMsAddrEncryptAsk | AppState::SdMsDescEncryptAsk => {
                let origin: u8 = if st == AppState::SdMsAddrEncryptAsk { 0 } else { 2 };
                if hit.is_back {
                    sd_out(s1, n1, out, goto(s0, if origin == 0 { AppState::MultisigShowAddress } else { AppState::MultisigDescriptor }),
                        n0, true, SdEffect::NoEffect)
                } else if dialog_left(hit.x, hit.y) {
                    sd_out(s1, n1, out, goto(s0, AppState::SdKsptEncryptPass), n0, true, SdEffect::StageForEncryption { origin })
                } else if dialog_right(hit.x, hit.y) {
                    sd_out(s1, n1, out, goto(s0, AppState::MultisigDescriptor), n0, true, SdEffect::WritePlain)
                } else {
                    sd_out(s1, n1, out, s0, n0, true, SdEffect::NoEffect)
                }
            },
            AppState::ShowQrPopup => {
                if hit.is_back {
                    sd_out(s1, n1, out, goto(s0, AppState::ShowQrModeChoice), n0, true, SdEffect::NoEffect)
                } else if dialog_left(hit.x, hit.y) {
                    if ctx.holds_descriptor {
                        sd_out(s1, n1, out, goto(s0, AppState::SdMsDescFilename), n0, true,
                            SdEffect::PrefillName { kind: SaveKind::MultisigDescriptor })
                    } else {
                        sd_out(s1, n1, out, goto(s0, AppState::SdKsptFilename), n0, true,
                            SdEffect::PrefillName { kind: SaveKind::Transaction })
                    }
                } else if dialog_right(hit.x, hit.y) {
                    sd_out(s1, n1, out, goto(UiState { qr: SignedQr { frame: 0, ..q }, ..s0 }, AppState::ShowQR), n0, true, SdEffect::NoEffect)
                } else {
                    sd_out(s1, n1, out, s0, n0, false, SdEffect::NoEffect)
                }
            },
            AppState::ShowQrModeChoice => {
                if hit.is_back {
                    let s = UiState { qr: SignedQr { nframes: 0, ..q }, ..s0 };
                    if q.via_density {
                        sd_out(s1, n1, out, goto(s, AppState::ShowQrDensityChoice), n0, true, SdEffect::NoEffect)
                    } else if ctx.ms_building {
                        sd_out(s1, n1, out, goto(s, AppState::MultisigDescriptor), n0, true, SdEffect::NoEffect)
                    } else {
                        went_home(s, s1) && n1 == n0 && out == Some((true, SdEffect::NoEffect))
                    }
                } else if dialog_left(hit.x, hit.y) {
                    sd_out(s1, n1, out, goto(UiState { qr: SignedQr { manual_frames: false, frame: 0, ..q }, ..s0 }, AppState::ShowQR),
                        n0, true, SdEffect::NoEffect)
                } else if dialog_right(hit.x, hit.y) {
                    sd_out(s1, n1, out, goto(UiState { qr: SignedQr { manual_frames: true, frame: 0, ..q }, ..s0 }, AppState::ShowQR),
                        n0, true, SdEffect::NoEffect)
                } else {
                    sd_out(s1, n1, out, s0, n0, true, SdEffect::NoEffect)
                }
            },
            AppState::SdFileList => file_list_touch(s0, n0, hit, true, None, s1, n1, out),
            AppState::SdKsptFileList => file_list_touch(s0, n0, hit, true, None, s1, n1, out),
            AppState::SdKpubFileList => file_list_touch(s0, n0, hit, true, Some(AppState::SdKpubFileList), s1, n1, out),
            AppState::SdXprvFileList => {
                if hit.is_back {
                    sd_out(s1, n1, out, goto(s0, AppState::SdImportMenu), SdNav { scroll: 0, ..n0 }, true, SdEffect::NoEffect)
                } else {
                    let (sc, t) = file_tap_spec(n0.scroll, n0.count, hit, false);
                    let n = SdNav { scroll: sc, ..n0 };
                    match t {
                        FileTap::Nothing => sd_out(s1, n1, out, s0, n, false, SdEffect::NoEffect),
                        FileTap::Open { index } => sd_out(s1, n1, out, goto(s0, AppState::SdXprvImportPassphrase), n, true,
                            SdEffect::SelectForPassword { index }),
                        _ => sd_out(s1, n1, out, s0, n, true, SdEffect::NoEffect),
                    }
                }
            },
            AppState::SdDeleteConfirm => {
                let ret = delete_return_spec(n0, ctx.selected_is_tx);
                let n = SdNav { delete_return: AppState::MainMenu, ..n0 };
                if hit.is_back {
                    sd_out(s1, n1, out, goto(s0, ret), n, true, SdEffect::NoEffect)
                } else if in_span(hit.y, 180, 230) && in_span(hit.x, 30, 150) {
                    sd_out(s1, n1, out, goto(s0, ret), n, true, SdEffect::Click)
                } else if in_span(hit.y, 180, 230) && in_span(hit.x, 170, 290) {
                    sd_out(s1, n1, out, goto(s0, ret), n, true, SdEffect::HoldToDelete)
                } else {
                    sd_out(s1, n1, out, s0, n0, false, SdEffect::NoEffect)
                }
            },
            AppState::SdImportMenu => {
                let m = s0.menus;
                if hit.is_back {
                    sd_out(s1, n1, out, goto(with_menus(s0, SubMenus { sd_import: reset_menu(m.sd_import), ..m }), AppState::ImportMenu),
                        n0, true, SdEffect::NoEffect)
                } else if hit.page_up && m.sd_import.scroll > 0 {
                    sd_out(s1, n1, out, with_menus(s0, SubMenus { sd_import: paged_up(m.sd_import), ..m }), n0, true, SdEffect::NoEffect)
                } else if hit.page_down && has_next_page(m.sd_import) {
                    sd_out(s1, n1, out, with_menus(s0, SubMenus { sd_import: paged_down(m.sd_import), ..m }), n0, true, SdEffect::NoEffect)
                } else {
                    match list_item_spec(m.sd_import, hit.list) {
                        Some(item) => {
                            if item <= 5 {
                                sd_out(s1, n1, out, s0, n0, true,
                                    if ctx.card_present { SdEffect::ScanCard { item } } else { SdEffect::NoCard { item } })
                            } else {
                                sd_out(s1, n1, out, s0, n0, true, SdEffect::NoEffect)
                            }
                        },
                        None => sd_out(s1, n1, out, s0, n0, false, SdEffect::NoEffect),
                    }
                }
            },
            _ => s1 == s0 && n1 == n0 && out.is_none(),
        }
    }
}

// ─── Handling ──────────────────────────────────────────────────────

fn save_kind_of_state(st: AppState) -> (k: Option<SaveKind>)
    ensures
        k == save_kind_of(st),
{
    match st {
        AppState::SdSeedFilename => Some(SaveKind::SeedBackup),
        AppState::SdSigFilename => Some(SaveKind::Signature),
        AppState::SdXprvFilename => Some(SaveKind::Xprv),
        AppState::SdKsptFilename => Some(SaveKind::Transaction),
        AppState::SdKpubFilename => Some(SaveKind::Kpub),
        AppState::SdMsAddrFilename => Some(SaveKind::MultisigAddress),
        AppState::SdMsDescFilename => Some(SaveKind::MultisigDescriptor),
        _ => None,
    }
}

fn password_back_state(st: AppState, name_ext: [u8; 3], txt_origin: u8) -> (b: Option<AppState>)
    ensures
        b == password_back(st, name_ext, txt_origin),
{
    match st {
        AppState::SdBackupPassphrase => Some(AppState::SeedBackupMenu),
        AppState::SdRestorePassphrase => Some(AppState::SdFileList),
        AppState::SdXprvExportPassphrase => Some(AppState::SigningKeysMenu),
        AppState::SdXprvImportPassphrase => Some(AppState::SdXprvFileList),
        AppState::SdKsptEncryptPass => {
            let is_ksp = name_ext[0] == 0x4b && name_ext[1] == 0x53 && name_ext[2] == 0x50;
            let is_txt = name_ext[0] == 0x54 && name_ext[1] == 0x58 && name_ext[2] == 0x54;
            Some(if is_ksp {
                AppState::SdKsptEncryptAsk
            } else if is_txt {
                if txt_origin == 1 { AppState::SdKpubEncryptAsk }
                else if txt_origin == 2 { AppState::SdMsDescEncryptAsk }
                else { AppState::SdMsAddrEncryptAsk }
            } else {
                AppState::SdKsptFileList
            })
        },
        _ => None,
    }
}

fn save_back_state(k: SaveKind) -> (st: AppState)
    ensures
        st == save_back(k),
{
    match k {
        SaveKind::SeedBackup => AppState::SeedBackupMenu,
        SaveKind::Signature => AppState::MainMenu,
        SaveKind::Xprv => AppState::SigningKeysMenu,
        SaveKind::Transaction => AppState::ShowQrPopup,
        SaveKind::Kpub => AppState::WatchOnlyMenu,
        SaveKind::MultisigAddress => AppState::MultisigShowAddress,
        SaveKind::MultisigDescriptor => AppState::MultisigDescriptor,
    }
}

fn save_next_state(k: SaveKind) -> (st: AppState)
    ensures
        st == save_next(k),
{
    match k {
        SaveKind::SeedBackup => AppState::SdBackupPassphrase,
        SaveKind::Xprv => AppState::SdXprvExportPassphrase,
        SaveKind::Transaction => AppState::SdKsptEncryptAsk,
        SaveKind::Kpub => AppState::SdKpubEncryptAsk,
        SaveKind::MultisigAddress => AppState::SdMsAddrEncryptAsk,
        SaveKind::MultisigDescriptor => AppState::SdMsDescEncryptAsk,
        SaveKind::Signature => AppState::MainMenu,
    }
}

fn name_screen_state(k: SaveKind) -> (st: AppState)
    ensures
        st == name_screen(k),
{
    match k {
        SaveKind::SeedBackup => AppState::SdSeedFilename,
        SaveKind::Signature => AppState::SdSigFilename,
        SaveKind::Xprv => AppState::SdXprvFilename,
        SaveKind::Transaction => AppState::SdKsptFilename,
        SaveKind::Kpub => AppState::SdKpubFilename,
        SaveKind::MultisigAddress => AppState::SdMsAddrFilename,
        SaveKind::MultisigDescriptor => AppState::SdMsDescFilename,
    }
}

fn handle_file_list(s: &mut UiState, n: &mut SdNav, hit: TouchHit, deletable: bool, delete_back: Option<AppState>)
    -> (out: Option<(bool, SdEffect)>)
    ensures
        file_list_touch(*old(s), *old(n), hit, deletable, delete_back, *final(s), *final(n), out),
{
    if hit.is_back {
        n.scroll = 0;
        s.app.state = AppState::SdImportMenu;
        return Some((true, SdEffect::NoEffect));
    }
    let (sc, t) = file_tap(n.scroll, n.count, hit, deletable);
    n.scroll = sc;
    match t {
        FileTap::Nothing => Some((false, SdEffect::NoEffect)),
        FileTap::PageUp | FileTap::PageDown => Some((true, SdEffect::NoEffect)),
        FileTap::Open { index } => Some((true, SdEffect::OpenFile { index })),
        FileTap::Delete { index } => {
            if let Some(b) = delete_back {
                n.delete_return = b;
            }
            s.app.state = AppState::SdDeleteConfirm;
            Some((true, SdEffect::SelectForDelete { index }))
        },
    }
}

/// Handle a touch on an SD screen (see [`sd_touch_spec`]).
pub fn handle_sd_touch(s: &mut UiState, n: &mut SdNav, ctx: SdContext, hit: TouchHit) -> (out: Option<(bool, SdEffect)>)
    requires
        old(s).wf(),
    ensures
        sd_touch_spec(*old(s), *old(n), ctx, hit, *final(s), *final(n), out),
        final(s).wf(),
{
    let st = s.app.state;
    if let Some(k) = save_kind_of_state(st) {
        if hit.is_back {
            if let SaveKind::Signature = k {
                s.app.go_main_menu();
            } else {
                s.app.state = save_back_state(k);
            }
            return Some((true, SdEffect::ClearEntry));
        }
        if ctx.key == 6 {
            if let SaveKind::Signature = k {
                s.app.go_main_menu();
                return Some((true, SdEffect::SaveSignature));
            }
            return Some((false, SdEffect::CheckName { kind: k }));
        }
        if ctx.key == 1 || ctx.key == 2 || ctx.key == 4 || ctx.key == 5 {
            return Some((false, SdEffect::Key { key: ctx.key, allow_space: false }));
        }
        return Some((false, SdEffect::NoEffect));
    }
    if let Some(back) = password_back_state(st, ctx.name_ext, ctx.txt_origin) {
        if hit.is_back {
            s.app.state = back;
            return Some((true, SdEffect::ClearEntry));
        }
        if ctx.key == 6 {
            return Some((false, SdEffect::PasswordEntered { screen: st }));
        }
        if ctx.key == 1 || ctx.key == 2 || ctx.key == 4 || ctx.key == 5 {
            return Some((false, SdEffect::Key { key: ctx.key, allow_space: true }));
        }
        return Some((false, SdEffect::NoEffect));
    }
    let left = within(hit.x, 30, 155) && within(hit.y, 140, 185);
    let right = within(hit.x, 165, 290) && within(hit.y, 140, 185);
    match st {
        AppState::SdBackupWarning => {
            if hit.is_back {
                s.app.state = AppState::SeedBackupMenu;
                Some((true, SdEffect::NoEffect))
            } else if within(hit.x, 85, 235) && hit.y >= 205 {
                s.app.state = AppState::SdSeedFilename;
                Some((true, SdEffect::PrefillName { kind: SaveKind::SeedBackup }))
            } else {
                Some((false, SdEffect::NoEffect))
            }
        },
        AppState::SdOverwriteWarning => {
            if hit.is_back {
                s.app.state = n.overwrite_back;
                Some((true, SdEffect::NoEffect))
            } else if left {
                s.app.state = n.overwrite_next;
                Some((true, SdEffect::ClearEntry))
            } else if right {
                s.app.state = n.overwrite_back;
                Some((false, SdEffect::NoEffect))
            } else {
                Some((false, SdEffect::NoEffect))
            }
        },
        AppState::SdKsptEncryptAsk => {
            if hit.is_back {
                s.app.state = AppState::ShowQrPopup;
                Some((true, SdEffect::NoEffect))
            } else if left {
                s.app.state = AppState::SdKsptEncryptPass;
                Some((true, SdEffect::EncryptTransaction))
            } else if right {
                s.app.go_main_menu();
                Some((true, SdEffect::WritePlain))
            } else {
                Some((true, SdEffect::NoEffect))
            }
        },
        AppState::SdKpubEncryptAsk => {
            if hit.is_back {
                s.app.state = AppState::WatchOnlyMenu;
                Some((true, SdEffect::NoEffect))
            } else if left {
                s.app.state = AppState::SdKsptEncryptPass;
                Some((true, SdEffect::StageForEncryption { origin: 1 }))
            } else if right {
                s.app.state = AppState::WatchOnlyMenu;
                Some((true, SdEffect::WritePlain))
            } else {
                Some((false, SdEffect::NoEffect))
            }
        },
        AppState::SdMsAddrEncryptAsk | AppState::SdMsDescEncryptAsk => {
            let is_addr = st == AppState::SdMsAddrEncryptAsk;
            let origin: u8 = if is_addr { 0 } else { 2 };
            if hit.is_back {
                s.app.state = if is_addr { AppState::MultisigShowAddress } else { AppState::MultisigDescriptor };
                Some((true, SdEffect::NoEffect))
            } else if left {
                s.app.state = AppState::SdKsptEncryptPass;
                Some((true, SdEffect::StageForEncryption { origin }))
            } else if right {
                s.app.state = AppState::MultisigDescriptor;
                Some((true, SdEffect::WritePlain))
            } else {
                Some((true, SdEffect::NoEffect))
            }
        },
        AppState::ShowQrPopup => {
            if hit.is_back {
                s.app.state = AppState::ShowQrModeChoice;
                Some((true, SdEffect::NoEffect))
            } else if left {
                if ctx.holds_descriptor {
                    s.app.state = AppState::SdMsDescFilename;
                    Some((true, SdEffect::PrefillName { kind: SaveKind::MultisigDescriptor }))
                } else {
                    s.app.state = AppState::SdKsptFilename;
                    Some((true, SdEffect::PrefillName { kind: SaveKind::Transaction }))
                }
            } else if right {
                s.qr.frame = 0;
                s.app.state = AppState::ShowQR;
                Some((true, SdEffect::NoEffect))
            } else {
                Some((false, SdEffect::NoEffect))
            }
        },
        AppState::ShowQrModeChoice => {
            if hit.is_back {
                s.qr.nframes = 0;
                if s.qr.via_density {
                    s.app.state = AppState::ShowQrDensityChoice;
                } else if ctx.ms_building {
                    s.app.state = AppState::MultisigDescriptor;
                } else {
                    s.app.go_main_menu();
                }
            } else if left {
                s.qr.manual_frames = false;
                s.qr.frame = 0;
                s.app.state = AppState::ShowQR;
            } else if right {
                s.qr.manual_frames = true;
                s.qr.frame = 0;
                s.app.state = AppState::ShowQR;
            }
            Some((true, SdEffect::NoEffect))
        },
        AppState::SdFileList | AppState::SdKsptFileList => handle_file_list(s, n, hit, true, None),
        AppState::SdKpubFileList => handle_file_list(s, n, hit, true, Some(AppState::SdKpubFileList)),
        AppState::SdXprvFileList => {
            if hit.is_back {
                n.scroll = 0;
                s.app.state = AppState::SdImportMenu;
                return Some((true, SdEffect::NoEffect));
            }
            let (sc, t) = file_tap(n.scroll, n.count, hit, false);
            n.scroll = sc;
            match t {
                FileTap::Nothing => Some((false, SdEffect::NoEffect)),
                FileTap::Open { index } => {
                    s.app.state = AppState::SdXprvImportPassphrase;
                    Some((true, SdEffect::SelectForPassword { index }))
                },
                _ => Some((true, SdEffect::NoEffect)),
            }
        },
        AppState::SdDeleteConfirm => {
            let ret = if n.delete_return != AppState::MainMenu {
                n.delete_return
            } else if ctx.selected_is_tx {
                AppState::SdKsptFileList
            } else {
                AppState::SdFileList
            };
            if hit.is_back {
                n.delete_return = AppState::MainMenu;
                s.app.state = ret;
                Some((true, SdEffect::NoEffect))
            } else if within(hit.y, 180, 230) && within(hit.x, 30, 150) {
                n.delete_return = AppState::MainMenu;
                s.app.state = ret;
                Some((true, SdEffect::Click))
            } else if within(hit.y, 180, 230) && within(hit.x, 170, 290) {
                n.delete_return = AppState::MainMenu;
                s.app.state = ret;
                Some((true, SdEffect::HoldToDelete))
            } else {
                Some((false, SdEffect::NoEffect))
            }
        },
        AppState::SdImportMenu => {
            if hit.is_back {
                s.menus.sd_import.reset();
                s.app.state = AppState::ImportMenu;
                return Some((true, SdEffect::NoEffect));
            }
            if hit.page_up && s.menus.sd_import.can_page_up() {
                let _ = s.menus.sd_import.page_up();
                return Some((true, SdEffect::NoEffect));
            }
            if hit.page_down && s.menus.sd_import.can_page_down() {
                let _ = s.menus.sd_import.page_down();
                return Some((true, SdEffect::NoEffect));
            }
            match list_item(&s.menus.sd_import, hit.list) {
                Some(item) => {
                    if item <= 5 {
                        if ctx.card_present {
                            Some((true, SdEffect::ScanCard { item }))
                        } else {
                            Some((true, SdEffect::NoCard { item }))
                        }
                    } else {
                        Some((true, SdEffect::NoEffect))
                    }
                },
                None => Some((false, SdEffect::NoEffect)),
            }
        },
        _ => None,
    }
}

// ─── After the caller's work ───────────────────────────────────────

/// Whether the screen is redrawn after a name check of kind `k`.
pub open spec fn name_checked_redraw(k: SaveKind, exists: bool) -> bool {
    match k {
        SaveKind::SeedBackup => !exists,
        SaveKind::Transaction | SaveKind::MultisigDescriptor => false,
        _ => true,
    }
}

/// After the check of a typed file name of kind `k`: a name the card has
/// already leads to the overwrite warning, which continues to the kind's
/// next screen or returns to its keyboard; a new name goes straight on.
/// Returns whether to redraw and whether to clear the entry.
pub fn name_checked(s: &mut UiState, n: &mut SdNav, k: SaveKind, exists: bool) -> (r: (bool, bool))
    ensures
        exists ==> *final(s) == goto(*old(s), AppState::SdOverwriteWarning)
            && *final(n) == (SdNav { overwrite_next: save_next(k), overwrite_back: name_screen(k), ..*old(n) })
            && r == (name_checked_redraw(k, exists), false),
        !exists ==> *final(s) == goto(*old(s), save_next(k)) && *final(n) == *old(n)
            && r == (name_checked_redraw(k, exists), true),
{
    let redraw = match k {
        SaveKind::SeedBackup => !exists,
        SaveKind::Transaction | SaveKind::MultisigDescriptor => false,
        _ => true,
    };
    if exists {
        n.overwrite_next = save_next_state(k);
        n.overwrite_back = name_screen_state(k);
        s.app.state = AppState::SdOverwriteWarning;
        (redraw, false)
    } else {
        s.app.state = save_next_state(k);
        (redraw, true)
    }
}

/// Why an import scan ends without a list.
#[derive(Debug, Clone, Copy, PartialEq, Eq, Structural)]
pub enum ScanRefusal {
    /// No matching file.
    NoneFound,
    /// The card could not be read.
    ReadError,
}

/// The list screen after the import scan of `item` found `found` files
/// (`ok` is false when the card could not be read): seed backups and
/// covenant backups share one list, transactions have theirs, and the text
/// imports theirs. The covenant scan counts a read error as nothing found.
pub open spec fn sd_scan_next_spec(item: u8, ok: bool, found: u8) -> Result<AppState, ScanRefusal> {
    if item == 5 {
        if found > 0 { Ok(AppState::SdFileList) } else { Err(ScanRefusal::NoneFound) }
    } else if !ok {
        Err(ScanRefusal::ReadError)
    } else if found == 0 {
        Err(ScanRefusal::NoneFound)
    } else if item == 0 {
        Ok(AppState::SdFileList)
    } else if item == 1 {
        Ok(AppState::SdKsptFileList)
    } else {
        Ok(AppState::SdKpubFileList)
    }
}

/// The list screen after an import scan (see [`sd_scan_next_spec`]).
pub fn sd_scan_next(item: u8, ok: bool, found: u8) -> (r: Result<AppState, ScanRefusal>)
    ensures
        r == sd_scan_next_spec(item, ok, found),
{
    if item == 5 {
        if found > 0 { Ok(AppState::SdFileList) } else { Err(ScanRefusal::NoneFound) }
    } else if !ok {
        Err(ScanRefusal::ReadError)
    } else if found == 0 {
        Err(ScanRefusal::NoneFound)
    } else if item == 0 {
        Ok(AppState::SdFileList)
    } else if item == 1 {
        Ok(AppState::SdKsptFileList)
    } else {
        Ok(AppState::SdKpubFileList)
    }
}

/// The listing rule of the import items 1 to 5: transactions (KSP), kpubs
/// and multisig addresses (TXT), descriptors (visible TXT or KSP files of
/// at most 512 bytes), covenant backups (visible COV files); item 0 takes
/// every file as a candidate, up to 16, for a look at its first block. All
/// files are at most 1024 bytes unless said otherwise; eight at most are listed.
pub open spec fn import_listing_spec(item: u8, entries: Seq<DirEntryInfo>) -> Seq<[u8; 11]> {
    if item == 0 {
        listed_names(entries, Seq::empty(), HiddenRule::ShowAll, Some(1024u32), 16)
    } else if item == 1 {
        listed_names(entries, seq![[0x4bu8, 0x53, 0x50]], HiddenRule::ShowAll, Some(1024u32), 8)
    } else if item == 2 || item == 3 {
        listed_names(entries, seq![[0x54u8, 0x58, 0x54]], HiddenRule::ShowAll, Some(1024u32), 8)
    } else if item == 4 {
        listed_names(entries, seq![[0x54u8, 0x58, 0x54], [0x74u8, 0x78, 0x74], [0x4bu8, 0x53, 0x50], [0x6bu8, 0x73, 0x70]],
            HiddenRule::DotOrDeleted, Some(512u32), 8)
    } else {
        listed_names(entries, seq![[0x43u8, 0x4f, 0x56]], HiddenRule::DotDeletedOrUnderscore, Some(1024u32), 8)
    }
}

/// The files an import item lists from a directory listing (see
/// [`import_listing_spec`]).
pub fn import_listing(item: u8, entries: &[DirEntryInfo]) -> (names: Vec<[u8; 11]>)
    ensures
        names@ == import_listing_spec(item, entries@),
{
    if item == 0 {
        let exts: [[u8; 3]; 0] = [];
        assert(exts@ =~= Seq::<[u8; 3]>::empty());
        list_files(entries, exts.as_slice(), HiddenRule::ShowAll, Some(1024), 16)
    } else if item == 1 {
        let exts: [[u8; 3]; 1] = [[0x4b, 0x53, 0x50]];
        assert(exts@ =~= seq![[0x4bu8, 0x53, 0x50]]);
        list_files(entries, exts.as_slice(), HiddenRule::ShowAll, Some(1024), 8)
    } else if item == 2 || item == 3 {
        let exts: [[u8; 3]; 1] = [[0x54, 0x58, 0x54]];
        assert(exts@ =~= seq![[0x54u8, 0x58, 0x54]]);
        list_files(entries, exts.as_slice(), HiddenRule::ShowAll, Some(1024), 8)
    } else if item == 4 {
        let exts: [[u8; 3]; 4] = [[0x54, 0x58, 0x54], [0x74, 0x78, 0x74], [0x4b, 0x53, 0x50], [0x6b, 0x73, 0x70]];
        assert(exts@ =~= seq![[0x54u8, 0x58, 0x54], [0x74u8, 0x78, 0x74], [0x4bu8, 0x53, 0x50], [0x6bu8, 0x73, 0x70]]);
        list_files(entries, exts.as_slice(), HiddenRule::DotOrDeleted, Some(512), 8)
    } else {
        let exts: [[u8; 3]; 1] = [[0x43, 0x4f, 0x56]];
        assert(exts@ =~= seq![[0x43u8, 0x4f, 0x56]]);
        list_files(entries, exts.as_slice(), HiddenRule::DotDeletedOrUnderscore, Some(1024), 8)
    }
}


// ─── Encrypted signed files ────────────────────────────────────────

/// What OK on the file password keyboard does, by the extension of the
/// chosen file name.
#[derive(Debug, Clone, Copy, PartialEq, Eq, Structural)]
pub enum PasswordStep {
    /// A ".KSP" name: encrypt the signed transaction and write it.
    SaveTransaction,
    /// A ".TXT" name: encrypt the staged text and write it.
    SaveText,
    /// Any other: the loaded file is decrypted.
    Load,
}

/// What OK on the file password keyboard does (see [`PasswordStep`]).
pub open spec fn password_step_spec(ext: [u8; 3]) -> PasswordStep {
    if ext[0] == 0x4b && ext[1] == 0x53 && ext[2] == 0x50 {
        PasswordStep::SaveTransaction
    } else if ext[0] == 0x54 && ext[1] == 0x58 && ext[2] == 0x54 {
        PasswordStep::SaveText
    } else {
        PasswordStep::Load
    }
}

/// What OK on the file password keyboard does (see [`password_step_spec`]).
pub fn password_step(ext: [u8; 3]) -> (p: PasswordStep)
    ensures
        p == password_step_spec(ext),
{
    if ext[0] == 0x4b && ext[1] == 0x53 && ext[2] == 0x50 {
        PasswordStep::SaveTransaction
    } else if ext[0] == 0x54 && ext[1] == 0x58 && ext[2] == 0x54 {
        PasswordStep::SaveText
    } else {
        PasswordStep::Load
    }
}

/// Save the signed buffer (its first `s.qr.len` bytes) encrypted under the
/// key derived from the password, with `nonce`: the container to write
/// (see [`kas3_sealed`]), or `None` when it would exceed 1024 bytes ("TX
/// too large"). Either way the password screen is left: a text file returns
/// to the export menu (staged kpub) or the descriptor, a transaction goes
/// home.
pub fn seal_signed_output(s: &mut UiState, key: &[u8; 32], nonce: &[u8; 12], buf: &[u8], is_text: bool,
    txt_origin: u8) -> (r: Option<Vec<u8>>)
    requires
        old(s).qr.len <= buf@.len(),
    ensures
        r is Some <==> KAS3_OVERHEAD + old(s).qr.len <= KAS3_MAX_FILE,
        r matches Some(f) ==> kas3_sealed(f@, key@, nonce@, buf@.take(old(s).qr.len as int)),
        is_text ==> *final(s) == goto(*old(s), if txt_origin == 1 { AppState::ExportChoice } else { AppState::MultisigDescriptor }),
        !is_text ==> went_home(*old(s), *final(s)),
{
    let data = vstd::slice::slice_subrange(buf, 0, s.qr.len);
    let r = encrypt_kas3_file(key, nonce, data);
    if is_text {
        s.app.state = if txt_origin == 1 { AppState::ExportChoice } else { AppState::MultisigDescriptor };
    } else {
        s.app.go_main_menu();
    }
    r
}

/// What a decrypted file turned out to hold, for the screen it came from.
#[derive(Debug, Clone, Copy, PartialEq, Eq, Structural)]
pub enum LoadedRoute {
    /// A multisig descriptor that parses ("Descriptor loaded!").
    Descriptor,
    /// A "multi_hd(" text that does not parse ("Bad descriptor").
    BadDescriptor,
    /// The descriptor import got something else ("Not a descriptor").
    NotDescriptor,
    /// A kpub, for the kpub import ("Kpub loaded!").
    Kpub,
    /// The kpub import got something else ("Not a valid kpub").
    NotKpub,
    /// A Kaspa address ("Address loaded!").
    Address,
    /// The address import got something else ("Not a valid address").
    NotAddress,
    /// A transaction, shown as QR ("TX loaded!").
    Transaction,
}

/// `p` starts with `q`.
pub open spec fn has_prefix(p: Seq<u8>, q: Seq<u8>) -> bool {
    p.len() >= q.len() && p.take(q.len() as int) == q
}

/// Text that opens a multisig descriptor.
pub open spec fn is_descriptor_text(p: Seq<u8>) -> bool {
    has_prefix(p, descriptor_prefix())
}

/// A kpub: base58 text starting "kpub", or the 79-byte raw form.
pub open spec fn is_kpub_text(p: Seq<u8>) -> bool {
    has_prefix(p, seq![0x6bu8, 0x70u8, 0x75u8, 0x62u8]) || (p.len() == 79 && p[0] == 0x01)
}

/// A Kaspa address: "kaspa:" or "kaspatest:" first.
pub open spec fn is_address_text(p: Seq<u8>) -> bool {
    ||| has_prefix(p, seq![0x6bu8, 0x61u8, 0x73u8, 0x70u8, 0x61u8, 0x3au8])
    ||| has_prefix(p, seq![0x6bu8, 0x61u8, 0x73u8, 0x70u8, 0x61u8, 0x74u8, 0x65u8, 0x73u8, 0x74u8, 0x3au8])
}

/// What a decrypted file holds for the screen it came from (`origin` 2
/// descriptor import, 1 kpub import, 0 address import, any other a
/// transaction file), descriptors parsed for at most `max_keys`
/// participants and kpubs and addresses of at most `kpub_max` bytes.
pub open spec fn loaded_route_spec(origin: u8, p: Seq<u8>, max_keys: int, kpub_max: nat) -> LoadedRoute {
    if origin == 2 {
        if !is_descriptor_text(p) { LoadedRoute::NotDescriptor }
        else if descriptor_valid(p, max_keys) { LoadedRoute::Descriptor }
        else { LoadedRoute::BadDescriptor }
    } else if origin == 1 {
        if is_kpub_text(p) && p.len() <= kpub_max { LoadedRoute::Kpub } else { LoadedRoute::NotKpub }
    } else if origin == 0 {
        if is_address_text(p) && p.len() <= kpub_max { LoadedRoute::Address } else { LoadedRoute::NotAddress }
    } else if is_descriptor_text(p) {
        if descriptor_valid(p, max_keys) { LoadedRoute::Descriptor } else { LoadedRoute::BadDescriptor }
    } else if is_address_text(p) {
        LoadedRoute::Address
    } else {
        LoadedRoute::Transaction
    }
}

/// The screen a loaded file leads to.
pub open spec fn loaded_screen(origin: u8, r: LoadedRoute) -> AppState {
    match r {
        LoadedRoute::Descriptor => AppState::MultisigDescriptor,
        LoadedRoute::BadDescriptor => if origin == 2 { AppState::SdImportMenu } else { AppState::SdKsptFileList },
        LoadedRoute::Kpub => AppState::ExportKpub,
        LoadedRoute::Address => AppState::MultisigShowAddress,
        LoadedRoute::Transaction => AppState::ShowQrFrameChoice,
        _ => AppState::SdImportMenu,
    }
}

/// What a decrypted file holds (see [`loaded_route_spec`]).
pub fn loaded_route<const K: usize>(origin: u8, p: &[u8], kpub_max: usize) -> (r: LoadedRoute)
    requires
        K <= 255,
    ensures
        r == loaded_route_spec(origin, p@, K as int, kpub_max as nat),
{
    let desc: [u8; 9] = [0x6d, 0x75, 0x6c, 0x74, 0x69, 0x5f, 0x68, 0x64, 0x28];
    let kpub: [u8; 4] = [0x6b, 0x70, 0x75, 0x62];
    let addr: [u8; 6] = [0x6b, 0x61, 0x73, 0x70, 0x61, 0x3a];
    let taddr: [u8; 10] = [0x6b, 0x61, 0x73, 0x70, 0x61, 0x74, 0x65, 0x73, 0x74, 0x3a];
    assert(desc@ =~= descriptor_prefix());
    assert(kpub@ =~= seq![0x6bu8, 0x70u8, 0x75u8, 0x62u8]);
    assert(addr@ =~= seq![0x6bu8, 0x61u8, 0x73u8, 0x70u8, 0x61u8, 0x3au8]);
    assert(taddr@ =~= seq![0x6bu8, 0x61u8, 0x73u8, 0x70u8, 0x61u8, 0x74u8, 0x65u8, 0x73u8, 0x74u8, 0x3au8]);
    let is_desc = starts_with_bytes(p, desc.as_slice());
    let is_kpub = starts_with_bytes(p, kpub.as_slice()) || (p.len() == 79 && p[0] == 0x01);
    let is_addr = starts_with_bytes(p, addr.as_slice()) || starts_with_bytes(p, taddr.as_slice());
    if origin == 2 {
        if !is_desc {
            LoadedRoute::NotDescriptor
        } else if parse_descriptor::<K>(p).is_some() {
            LoadedRoute::Descriptor
        } else {
            LoadedRoute::BadDescriptor
        }
    } else if origin == 1 {
        if is_kpub && p.len() <= kpub_max { LoadedRoute::Kpub } else { LoadedRoute::NotKpub }
    } else if origin == 0 {
        if is_addr && p.len() <= kpub_max { LoadedRoute::Address } else { LoadedRoute::NotAddress }
    } else if is_desc {
        if parse_descriptor::<K>(p).is_some() { LoadedRoute::Descriptor } else { LoadedRoute::BadDescriptor }
    } else if is_addr {
        LoadedRoute::Address
    } else {
        LoadedRoute::Transaction
    }
}

/// Open a loaded container under the key derived from the password. On
/// success the signed buffer takes the data (the caller copies the returned
/// bytes; its length becomes the signed length and the QR framing starts
/// afresh) and the screen follows what the data is (see
/// [`loaded_route_spec`], [`loaded_screen`]). A wrong password or a
/// malformed file empties the signed buffer and returns to the transaction
/// file list. What [`seal_signed_output`] saved (one byte or more) opens
/// under the same key to the saved data.
pub fn open_signed_file<const K: usize>(s: &mut UiState, key: &[u8; 32], file: &[u8], origin: u8, kpub_max: usize)
    -> (r: Result<(Vec<u8>, LoadedRoute), Kas3Error>)
    requires
        K <= 255,
    ensures
        !kas3_well_formed(file@) ==> r == Err::<(Vec<u8>, LoadedRoute), Kas3Error>(Kas3Error::InvalidFile),
        kas3_well_formed(file@) && kas3_open_spec(key@, file@) is None
            ==> r == Err::<(Vec<u8>, LoadedRoute), Kas3Error>(Kas3Error::WrongPassword),
        kas3_well_formed(file@) ==> (kas3_open_spec(key@, file@) matches Some(pt) ==> (r matches Ok((p, route))
            && p@ == pt && route == loaded_route_spec(origin, pt, K as int, kpub_max as nat))),
        forall|nonce: Seq<u8>, data: Seq<u8>| #[trigger] kas3_sealed(file@, key@, nonce, data) && data.len() >= 1
            ==> (r matches Ok((p, route)) && p@ == data && final(s).qr.len == data.len()),
        r is Err ==> *final(s) == (UiState { qr: SignedQr { len: 0, ..old(s).qr },
            app: crate::input::WalletApp { state: AppState::SdKsptFileList, ..old(s).app }, ..*old(s) }),
        r matches Ok((p, route)) ==> *final(s) == (UiState {
            qr: SignedQr { len: p@.len() as usize, frame: 0, nframes: 0, large: false, ..old(s).qr },
            app: crate::input::WalletApp { state: loaded_screen(origin, route), ..old(s).app }, ..*old(s) }),
{
    match decrypt_kas3_file(key, file) {
        Ok(p) => {
            let route = loaded_route::<K>(origin, p.as_slice(), kpub_max);
            s.qr.len = p.len();
            s.qr.frame = 0;
            s.qr.nframes = 0;
            s.qr.large = false;
            s.app.state = match route {
                LoadedRoute::Descriptor => AppState::MultisigDescriptor,
                LoadedRoute::BadDescriptor => if origin == 2 { AppState::SdImportMenu } else { AppState::SdKsptFileList },
                LoadedRoute::Kpub => AppState::ExportKpub,
                LoadedRoute::Address => AppState::MultisigShowAddress,
                LoadedRoute::Transaction => AppState::ShowQrFrameChoice,
                _ => AppState::SdImportMenu,
            };
            Ok((p, route))
        },
        Err(e) => {
            s.qr.len = 0;
            s.app.state = AppState::SdKsptFileList;
            Err(e)
        },
    }
}

} // verus!
