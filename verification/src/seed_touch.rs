//! Touch decisions of the seed screens: typing a raw key in hex, the child
//! seed index, paging through words, entering mnemonic words, storing a
//! seed, the seed list and deleting a seed.

use vstd::prelude::*;
use crate::input::{AppState, HandlerGroup, handler_group_of};
use crate::screens::{UiState, SubMenus, TouchHit, in_span, goto, went_home, reset_menu};
use crate::sdfile::{parse_hex_key, all_hex, hex_decode};
use crate::hold::{HoldLayout, Rect};

verus! {

// ─── Raw key in hex ────────────────────────────────────────────────

/// A key of the on-screen keyboard, as its hit test reports it.
#[derive(Debug, Clone, Copy, PartialEq, Eq, Structural)]
pub enum KeyAction {
    Char { ch: u8 },
    Backspace,
    Confirm,
    Cancel,
    NoKey,
}

/// The hex digits typed so far (at most 64, lower case).
#[derive(Clone, Copy)]
pub struct HexEntry {
    pub buf: [u8; 64],
    pub len: u8,
}

/// What a key press on the hex key screen leads to.
#[derive(Debug, Clone, Copy)]
pub enum HexEntryStep {
    /// The entry changed or the key did nothing: redraw the entry.
    Edited,
    /// OK with fewer than 64 digits: nothing happens.
    Incomplete,
    /// OK with 64 digits that are not all hex.
    InvalidHex,
    /// OK with a full key.
    Key { key: [u8; 32] },
    /// Another key.
    Ignored,
}

/// An upper-case hex letter in lower case; other bytes stay.
pub open spec fn hex_lower_case(c: u8) -> u8 {
    if 0x41 <= c <= 0x46 { (c + 32) as u8 } else { c }
}

impl HexEntry {
    /// The entry holds at most 64 digits.
    pub open spec fn wf(&self) -> bool {
        self.len <= 64
    }

    /// An empty entry.
    pub fn new() -> (e: Self)
        ensures
            e.len == 0,
            e.buf@ == Seq::new(64, |i: int| 0u8),
            e.wf(),
    {
        let e = HexEntry { buf: [0u8; 64], len: 0 };
        assert(e.buf@ =~= Seq::new(64, |i: int| 0u8));
        e
    }

    /// A key press: a character is appended (upper-case hex letters turned
    /// to lower case) while fewer than 64 are typed, backspace removes the
    /// last, OK hands over the key once 64 digits are typed.
    pub fn press(&mut self, action: KeyAction) -> (st: HexEntryStep)
        requires
            old(self).wf(),
        ensures
            final(self).wf(),
            match action {
                KeyAction::Char { ch } => st == HexEntryStep::Edited && if old(self).len < 64 {
                    final(self).len == old(self).len + 1
                        && final(self).buf@ == old(self).buf@.update(old(self).len as int, hex_lower_case(ch))
                } else {
                    *final(self) == *old(self)
                },
                KeyAction::Backspace => st == HexEntryStep::Edited && final(self).buf == old(self).buf
                    && final(self).len == (if old(self).len > 0 { old(self).len - 1 } else { 0 }),
                KeyAction::Confirm => *final(self) == *old(self) && if old(self).len < 64 {
                    st == HexEntryStep::Incomplete
                } else if all_hex(old(self).buf@) {
                    st matches HexEntryStep::Key { key } && key@ == hex_decode(old(self).buf@)
                } else {
                    st == HexEntryStep::InvalidHex
                },
                _ => *final(self) == *old(self) && st == HexEntryStep::Ignored,
            },
    {
        match action {
            KeyAction::Char { ch } => {
                if self.len < 64 {
                    let c = if 0x41 <= ch && ch <= 0x46 { ch + 32 } else { ch };
                    self.buf[self.len as usize] = c;
                    self.len = self.len + 1;
                }
                HexEntryStep::Edited
            },
            KeyAction::Backspace => {
                if self.len > 0 {
                    self.len = self.len - 1;
                }
                HexEntryStep::Edited
            },
            KeyAction::Confirm => {
                if self.len < 64 {
                    return HexEntryStep::Incomplete;
                }
                let b = self.buf;
                proof {
                    assert(b@.take(64) =~= b@);
                }
                match parse_hex_key(b.as_slice()) {
                    Some(key) => HexEntryStep::Key { key },
                    None => HexEntryStep::InvalidHex,
                }
            },
            _ => HexEntryStep::Ignored,
        }
    }
}

// ─── Child seeds ───────────────────────────────────────────────────

/// Highest child seed index offered.
pub const BIP85_MAX_INDEX: u16 = 99;

/// What a tap on the child-seed index screen does.
#[derive(Debug, Clone, Copy, PartialEq, Eq, Structural)]
pub enum Bip85Tap {
    /// Back to the seed tools.
    Back,
    /// The index became this.
    Index { index: u16 },
    /// Derive the child seed (when a seed is loaded).
    Derive,
    /// Refuse: "Load a seed first".
    NeedSeed,
    Nothing,
}

/// A tap on the child-seed index screen: minus (85..=125 × 98..=132) and
/// plus (195..=235) step the index within 0..=99, the derive button
/// (90..=230 × 150..=182) derives when a seed is loaded.
pub open spec fn bip85_tap_spec(index: u16, x: u16, y: u16, is_back: bool, seed_loaded: bool) -> Bip85Tap {
    if is_back {
        Bip85Tap::Back
    } else if in_span(x, 85, 125) && in_span(y, 98, 132) {
        if index > 0 { Bip85Tap::Index { index: (index - 1) as u16 } } else { Bip85Tap::Nothing }
    } else if in_span(x, 195, 235) && in_span(y, 98, 132) {
        if index < BIP85_MAX_INDEX { Bip85Tap::Index { index: (index + 1) as u16 } } else { Bip85Tap::Nothing }
    } else if in_span(x, 90, 230) && in_span(y, 150, 182) {
        if seed_loaded { Bip85Tap::Derive } else { Bip85Tap::NeedSeed }
    } else {
        Bip85Tap::Nothing
    }
}

/// A tap on the child-seed index screen (see [`bip85_tap_spec`]).
pub fn bip85_tap(index: u16, x: u16, y: u16, is_back: bool, seed_loaded: bool) -> (t: Bip85Tap)
    ensures
        t == bip85_tap_spec(index, x, y, is_back, seed_loaded),
{
    if is_back {
        Bip85Tap::Back
    } else if 85 <= x && x <= 125 && 98 <= y && y <= 132 {
        if index > 0 { Bip85Tap::Index { index: index - 1 } } else { Bip85Tap::Nothing }
    } else if 195 <= x && x <= 235 && 98 <= y && y <= 132 {
        if index < BIP85_MAX_INDEX { Bip85Tap::Index { index: index + 1 } } else { Bip85Tap::Nothing }
    } else if 90 <= x && x <= 230 && 150 <= y && y <= 182 {
        if seed_loaded { Bip85Tap::Derive } else { Bip85Tap::NeedSeed }
    } else {
        Bip85Tap::Nothing
    }
}

/// Paging through the words of a child seed: any tap shows the next word;
/// after the last one, or with the back button, the seed tools return (and
/// the child's words are wiped).
pub open spec fn show_word_next(word_idx: u8, word_count: u8, is_back: bool) -> AppState {
    if !is_back && word_idx + 1 < word_count {
        AppState::Bip85ShowWord { word_idx: (word_idx + 1) as u8, word_count }
    } else {
        AppState::SeedToolsMenu
    }
}

/// The next screen while paging through child-seed words (see [`show_word_next`]).
pub fn show_word_tap(word_idx: u8, word_count: u8, is_back: bool) -> (st: AppState)
    ensures
        st == show_word_next(word_idx, word_count, is_back),
{
    if !is_back && (word_idx as u16) + 1 < (word_count as u16) {
        AppState::Bip85ShowWord { word_idx: word_idx + 1, word_count }
    } else {
        AppState::SeedToolsMenu
    }
}

// ─── Mnemonic words ────────────────────────────────────────────────

/// How many words are typed before the mnemonic is complete: all of them
/// on import; all but the last (which is computed) when completing one.
pub open spec fn words_to_type(calc_last: bool, word_count: u8) -> int {
    if !calc_last { word_count as int } else if word_count == 12 { 11 } else { 23 }
}

/// After a word was accepted at `word_idx`: the next word's screen, or
/// `None` once every word to type is in.
pub open spec fn word_entered_spec(calc_last: bool, word_idx: u8, word_count: u8) -> Option<AppState> {
    if word_idx + 1 >= words_to_type(calc_last, word_count) {
        None
    } else if calc_last {
        Some(AppState::CalcLastWord { word_idx: (word_idx + 1) as u8, word_count })
    } else {
        Some(AppState::ImportWord { word_idx: (word_idx + 1) as u8, word_count })
    }
}

/// Store the accepted word `idx` at `word_idx` and tell what follows (see
/// [`word_entered_spec`]).
pub fn word_entered(mnemonic: &mut [u16; 24], calc_last: bool, word_idx: u8, word_count: u8, idx: u16)
    -> (next: Option<AppState>)
    requires
        word_idx < 24,
    ensures
        final(mnemonic)@ == old(mnemonic)@.update(word_idx as int, idx),
        next == word_entered_spec(calc_last, word_idx, word_count),
{
    mnemonic[word_idx as usize] = idx;
    let target: u16 = if !calc_last { word_count as u16 } else if word_count == 12 { 11 } else { 23 };
    let next = (word_idx as u16) + 1;
    if next >= target {
        None
    } else if calc_last {
        Some(AppState::CalcLastWord { word_idx: word_idx + 1, word_count })
    } else {
        Some(AppState::ImportWord { word_idx: word_idx + 1, word_count })
    }
}

/// The screen after a seed was stored with its passphrase: the key picker
/// of a multisig configuration being built (at its first empty key), else
/// the backup of the new seed's words; with every slot full, the seed
/// tools.
pub open spec fn seed_stored_next(stored: bool, ms_pending_key: Option<u8>) -> AppState {
    if !stored {
        AppState::SeedToolsMenu
    } else {
        match ms_pending_key {
            Some(k) => AppState::MultisigPickSeed { key_idx: k },
            None => AppState::SeedBackup { word_idx: 0 },
        }
    }
}

/// The screen after storing a seed (see [`seed_stored_next`]).
pub fn seed_stored(stored: bool, ms_pending_key: Option<u8>) -> (st: AppState)
    ensures
        st == seed_stored_next(stored, ms_pending_key),
{
    if !stored {
        AppState::SeedToolsMenu
    } else {
        match ms_pending_key {
            Some(k) => AppState::MultisigPickSeed { key_idx: k },
            None => AppState::SeedBackup { word_idx: 0 },
        }
    }
}

// ─── The seed list ─────────────────────────────────────────────────

/// Seed cards shown per page.
pub const SEEDS_PER_PAGE: u8 = 3;

/// What a tap on the seed list does.
#[derive(Debug, Clone, Copy, PartialEq, Eq, Structural)]
pub enum SeedListTap {
    Nothing,
    PageUp,
    PageDown,
    /// "Load a seed first": back to the seed tools.
    NeedSeed,
    /// Show the active seed's address.
    Address,
    /// Export the active seed.
    Export,
    /// The empty row: to the tools menu.
    AddSeed,
    /// Ask to delete the seed in this slot.
    Delete { slot: u8 },
    /// Make the seed in this slot the active one.
    Activate { slot: u8 },
}

/// A tap on the seed list. `loaded` holds the slots that hold a seed, in
/// order; the list shows them and one empty row (as long as there are
/// fewer than `max_slots`), three per page. The arrows page; the two top
/// buttons (y 42..74: x 11..157 and 163..309) show the address or export,
/// given a seed; a card (x 40..280, rows 46 pixels apart from y 78, 42
/// high) activates its seed, or asks to delete it on its right edge
/// (x 232..276). Gives the new scroll offset.
pub open spec fn seed_list_tap_spec(scroll: u8, loaded: Seq<u8>, max_slots: nat, x: u16, y: u16, seed_loaded: bool)
    -> (u8, SeedListTap)
{
    let total = if loaded.len() + 1 < max_slots { loaded.len() + 1 } else { max_slots };
    if x < 40 && y >= 42 && scroll > 0 {
        ((if scroll >= SEEDS_PER_PAGE { scroll - SEEDS_PER_PAGE } else { 0 }) as u8, SeedListTap::PageUp)
    } else if x >= 280 && y >= 42 && scroll + SEEDS_PER_PAGE < total {
        ((scroll + SEEDS_PER_PAGE) as u8, SeedListTap::PageDown)
    } else if 42 <= y < 74 {
        if 11 <= x < 157 || 163 <= x < 309 {
            (scroll, if !seed_loaded { SeedListTap::NeedSeed } else if x < 157 { SeedListTap::Address } else { SeedListTap::Export })
        } else {
            (scroll, SeedListTap::Nothing)
        }
    } else if 40 <= x < 280 && 76 <= y < 216 && 78 <= y && (y - 78) % 46 < 42 && (y - 78) / 46 < SEEDS_PER_PAGE {
        let i = scroll + (y - 78) / 46;
        if i >= loaded.len() {
            (scroll, SeedListTap::AddSeed)
        } else if 232 <= x < 276 {
            (scroll, SeedListTap::Delete { slot: loaded[i] })
        } else {
            (scroll, SeedListTap::Activate { slot: loaded[i] })
        }
    } else {
        (scroll, SeedListTap::Nothing)
    }
}

/// A tap on the seed list (see [`seed_list_tap_spec`]).
pub fn seed_list_tap(scroll: u8, loaded: &[u8], max_slots: usize, x: u16, y: u16, seed_loaded: bool) -> (r: (u8, SeedListTap))
    requires
        loaded@.len() < 255,
    ensures
        r == seed_list_tap_spec(scroll, loaded@, max_slots as nat, x, y, seed_loaded),
{
    let total: usize = if loaded.len() + 1 < max_slots { loaded.len() + 1 } else { max_slots };
    if x < 40 && y >= 42 && scroll > 0 {
        let s = if scroll >= SEEDS_PER_PAGE { scroll - SEEDS_PER_PAGE } else { 0 };
        return (s, SeedListTap::PageUp);
    }
    if x >= 280 && y >= 42 && (scroll as usize) + (SEEDS_PER_PAGE as usize) < total {
        return (scroll + SEEDS_PER_PAGE, SeedListTap::PageDown);
    }
    if 42 <= y && y < 74 {
        if (11 <= x && x < 157) || (163 <= x && x < 309) {
            let t = if !seed_loaded { SeedListTap::NeedSeed } else if x < 157 { SeedListTap::Address } else { SeedListTap::Export };
            return (scroll, t);
        }
        return (scroll, SeedListTap::Nothing);
    }
    if 40 <= x && x < 280 && 76 <= y && y < 216 && 78 <= y && (y - 78) % 46 < 42 && (y - 78) / 46 < (SEEDS_PER_PAGE as u16) {
        let i = (scroll as usize) + ((y - 78) / 46) as usize;
        if i >= loaded.len() {
            return (scroll, SeedListTap::AddSeed);
        }
        if 232 <= x && x < 276 {
            return (scroll, SeedListTap::Delete { slot: loaded[i] });
        }
        return (scroll, SeedListTap::Activate { slot: loaded[i] });
    }
    (scroll, SeedListTap::Nothing)
}

/// The 65-byte raw form of an extended key stored in a seed slot: the first
/// 16 word indices as little-endian byte pairs, then the first 33 bytes of
/// the passphrase field.
pub fn xprv_raw_from_slot(indices: &[u16; 24], passphrase: &[u8; 33]) -> (raw: [u8; 65])
    ensures
        forall|j: int| 0 <= j < 16 ==> #[trigger] raw@[2 * j] == indices@[j] % 256,
        forall|j: int| 0 <= j < 16 ==> #[trigger] raw@[2 * j + 1] == indices@[j] / 256,
        raw@.skip(32) == passphrase@,
{
    let mut raw = [0u8; 65];
    let mut j: usize = 0;
    while j < 16
        invariant
            j <= 16,
            forall|i: int| 0 <= i < j ==> #[trigger] raw@[2 * i] == indices@[i] % 256,
            forall|i: int| 0 <= i < j ==> #[trigger] raw@[2 * i + 1] == indices@[i] / 256,
        decreases 16 - j,
    {
        let v = indices[j];
        raw[2 * j] = (v % 256) as u8;
        raw[2 * j + 1] = (v / 256) as u8;
        j = j + 1;
    }
    let mut k: usize = 0;
    while k < 33
        invariant
            k <= 33,
            forall|i: int| 0 <= i < 16 ==> #[trigger] raw@[2 * i] == indices@[i] % 256,
            forall|i: int| 0 <= i < 16 ==> #[trigger] raw@[2 * i + 1] == indices@[i] / 256,
            forall|i: int| 0 <= i < k ==> #[trigger] raw@[32 + i] == passphrase@[i],
        decreases 33 - k,
    {
        raw[32 + k] = passphrase[k];
        k = k + 1;
    }
    assert forall|i: int| 0 <= i < 33 implies #[trigger] raw@.skip(32)[i] == passphrase@[i] by {
        assert(raw@[32 + i] == passphrase@[i]);
    }
    assert(raw@.skip(32) =~= passphrase@);
    raw
}

/// An extended key survives storage in a seed slot: the raw form read back
/// from the slot fields that [`crate::sdfile::xprv_slot_fields`] fills is
/// the raw form that was stored.
pub proof fn lemma_xprv_slot_roundtrip(raw: Seq<u8>, indices: Seq<u16>, passphrase: Seq<u8>, back: Seq<u8>)
    requires
        raw.len() == 65,
        indices.len() == 24,
        passphrase.len() == 33,
        back.len() == 65,
        forall|j: int| 0 <= j < 16 ==> #[trigger] indices[j] == raw[2 * j] + 256 * raw[2 * j + 1],
        passphrase == raw.skip(32),
        forall|j: int| 0 <= j < 16 ==> #[trigger] back[2 * j] == indices[j] % 256,
        forall|j: int| 0 <= j < 16 ==> #[trigger] back[2 * j + 1] == indices[j] / 256,
        back.skip(32) == passphrase,
    ensures
        back == raw,
{
    assert forall|i: int| 0 <= i < 65 implies #[trigger] back[i] == raw[i] by {
        if i < 32 {
            let j = i / 2;
            assert(indices[j] == raw[2 * j] + 256 * raw[2 * j + 1]);
            assert(back[2 * j] == indices[j] % 256);
            assert(back[2 * j + 1] == indices[j] / 256);
            if i % 2 == 0 {
                assert(i == 2 * j);
            } else {
                assert(i == 2 * j + 1);
            }
        } else {
            assert(back.skip(32)[i - 32] == raw.skip(32)[i - 32]);
        }
    }
    assert(back =~= raw);
}

// ─── Deleting a seed ───────────────────────────────────────────────

/// The seed deletion screen: the red button (170..=290, 180..=230) and the
/// back button; while holding, the cancel button beside the red one does
/// not count.
pub open spec fn seed_delete_layout_spec() -> HoldLayout {
    HoldLayout {
        button: Rect { x0: 170, x1: 290, y0: 180, y1: 230 },
        cancel_a: Rect { x0: 0, x1: 40, y0: 0, y1: 40 },
        click_a: false,
        cancel_b: Rect { x0: 1, x1: 0, y0: 1, y1: 0 },
        click_b: false,
        bar: 120,
    }
}

/// The seed deletion screen (see [`seed_delete_layout_spec`]).
pub fn seed_delete_layout() -> (l: HoldLayout)
    ensures
        l == seed_delete_layout_spec(),
{
    HoldLayout {
        button: Rect { x0: 170, x1: 290, y0: 180, y1: 230 },
        cancel_a: Rect { x0: 0, x1: 40, y0: 0, y1: 40 },
        click_a: false,
        cancel_b: Rect { x0: 1, x1: 0, y0: 1, y1: 0 },
        click_b: false,
        bar: 120,
    }
}

/// The first slot that still holds a seed, which becomes active after the
/// active seed was deleted.
pub open spec fn first_loaded(empty: Seq<bool>, from: nat) -> Option<nat>
    decreases empty.len() - from,
{
    if from >= empty.len() {
        None
    } else if !empty[from as int] {
        Some(from)
    } else {
        first_loaded(empty, from + 1)
    }
}

/// The slot to activate after the active seed was deleted (see [`first_loaded`]).
pub fn next_active_slot(empty: &[bool]) -> (r: Option<usize>)
    ensures
        match r {
            Some(i) => first_loaded(empty@, 0) == Some(i as nat),
            None => first_loaded(empty@, 0) is None,
        },
{
    let mut i: usize = 0;
    while i < empty.len()
        invariant
            i <= empty@.len(),
            first_loaded(empty@, i as nat) == first_loaded(empty@, 0),
        decreases empty@.len() - i,
    {
        if !empty[i] {
            return Some(i);
        }
        i = i + 1;
    }
    None
}

// ─── Touch handling ────────────────────────────────────────────────

/// The seed screens' own state.
#[derive(Clone, Copy)]
pub struct SeedNav {
    /// The child seed index.
    pub bip85_index: u16,
    /// First seed card shown on the seed list.
    pub scroll: u8,
    /// The slot waiting for deletion (0xFF for none).
    pub pending_delete: u8,
    /// The word indices typed so far.
    pub mnemonic: [u16; 24],
    /// The raw key typed so far.
    pub hex: HexEntry,
}

/// What the seed screens read besides the interface state.
#[derive(Clone, Copy)]
pub struct SeedContext {
    /// The active slot holds a seed.
    pub seed_loaded: bool,
    /// Word count of the active slot (1 for a raw key, 2 for an extended key).
    pub active_word_count: u8,
    /// The key of the letter or hex keyboard under the touch.
    pub key: KeyAction,
    /// The key code of the passphrase keyboard under the touch.
    pub pp_key: u8,
    /// The word suggestion under the touch, as its index in the word list.
    pub suggestion: Option<u16>,
    /// The word typed so far matches this word of the list.
    pub matched: Option<u16>,
    /// Number of seed slots.
    pub max_slots: usize,
}

/// Why a seed screen refused to go on.
#[derive(Debug, Clone, Copy, PartialEq, Eq, Structural)]
pub enum SeedRefusal {
    /// "Load a seed first".
    NeedSeed,
    /// "Invalid hex characters".
    InvalidHex,
}

/// Work left to the caller after a touch on a seed screen.
#[derive(Debug, Clone, Copy)]
pub enum SeedEffect {
    NoEffect,
    Refuse { reason: SeedRefusal },
    /// Show the new child index.
    ShowIndex { index: u16 },
    /// Derive the child seed of this many words at the index, store and
    /// activate it; then see [`bip85_derived_next`].
    DeriveChild { word_count: u8 },
    /// Wipe the child seed's words.
    WipeChild,
    /// Redraw the hex entry.
    HexEdited,
    /// Check the key is on the curve and store it as a raw-key seed.
    ImportKey { privkey: [u8; 32] },
    /// Clear the word entry.
    ClearWord,
    /// Let the word entry act on this key (letter or backspace).
    WordKey { action: KeyAction },
    /// The word was taken; clear the entry and show the next word's header.
    NextWord,
    /// Every word is in: clear the entry and check the mnemonic, then see
    /// [`mnemonic_checked_next`].
    CheckMnemonic,
    /// Every word but the last is in: clear the entry, compute and show the
    /// last word, clear the passphrase.
    ComputeLastWord,
    /// Clear the passphrase entry.
    ClearPassphrase,
    /// Let the passphrase keyboard act on this key.
    PassphraseKey { code: u8 },
    /// Store the mnemonic with the typed passphrase and activate it; then
    /// see [`seed_stored`].
    StoreSeed,
    /// Derive the active seed's addresses when they are not cached, and
    /// return to the seed list from the address screen.
    ShowAddress,
    /// Write the active raw key in hex for export.
    ExportRawKey,
    /// Activate the seed in this slot (see [`activate_slot`]).
    Activate { slot: u8 },
    /// Click.
    Click,
    /// Run the hold-to-delete gesture ([`seed_delete_layout`]), then finish
    /// with [`finish_seed_delete`].
    HoldToDelete,
}

/// A seed screen's answer.
pub open spec fn seed_out(s1: UiState, n1: SeedNav, out: Option<(bool, SeedEffect)>, s: UiState, n: SeedNav,
    redraw: bool, e: SeedEffect) -> bool
{
    s1 == s && n1 == n && out == Some((redraw, e))
}

/// The word `idx` was taken at `word_idx` of a mnemonic of `word_count`
/// words (the last one computed when `calc_last`).
pub open spec fn word_taken(s0: UiState, n0: SeedNav, calc_last: bool, word_idx: u8, word_count: u8, idx: u16,
    s1: UiState, n1: SeedNav, out: Option<(bool, SeedEffect)>) -> bool
{
    &&& n1.mnemonic@ == n0.mnemonic@.update(word_idx as int, idx)
    &&& n1 == SeedNav { mnemonic: n1.mnemonic, ..n0 }
    &&& match word_entered_spec(calc_last, word_idx, word_count) {
        Some(st) => s1 == goto(s0, st) && out == Some((false, SeedEffect::NextWord)),
        None => if calc_last {
            s1 == goto(s0, AppState::PassphraseEntry) && out == Some((true, SeedEffect::ComputeLastWord))
        } else {
            s1 == s0 && out == Some((true, SeedEffect::CheckMnemonic))
        },
    }
}

/// A word screen (import, or completing a mnemonic when `calc_last`).
pub open spec fn word_screen_touch(s0: UiState, n0: SeedNav, ctx: SeedContext, hit: TouchHit, calc_last: bool,
    word_idx: u8, word_count: u8, s1: UiState, n1: SeedNav, out: Option<(bool, SeedEffect)>) -> bool
{
    if hit.is_back {
        seed_out(s1, n1, out, goto(s0, AppState::SeedToolsMenu), n0, true, SeedEffect::ClearWord)
    } else if ctx.suggestion is Some {
        word_taken(s0, n0, calc_last, word_idx, word_count, ctx.suggestion->0, s1, n1, out)
    } else {
        match ctx.key {
            KeyAction::Char { .. } | KeyAction::Backspace =>
                seed_out(s1, n1, out, s0, n0, false, SeedEffect::WordKey { action: ctx.key }),
            KeyAction::Confirm => match ctx.matched {
                Some(idx) => word_taken(s0, n0, calc_last, word_idx, word_count, idx, s1, n1, out),
                None => seed_out(s1, n1, out, s0, n0, false, SeedEffect::NoEffect),
            },
            KeyAction::Cancel => seed_out(s1, n1, out, goto(s0, AppState::SeedToolsMenu), n0, true, SeedEffect::ClearWord),
            KeyAction::NoKey => seed_out(s1, n1, out, s0, n0, false, SeedEffect::NoEffect),
        }
    }
}

/// `s` with the tools menu back on its first item.
pub open spec fn tools_reset(s: UiState) -> UiState {
    UiState { menus: SubMenus { tools: reset_menu(s.menus.tools), ..s.menus }, ..s }
}

/// What a touch does on the seed screens. Other screens are left alone and
/// answered `None`. `loaded` lists the slots that hold a seed, in order.
pub open spec fn seed_touch_spec(s0: UiState, n0: SeedNav, ctx: SeedContext, loaded: Seq<u8>, hit: TouchHit,
    s1: UiState, n1: SeedNav, out: Option<(bool, SeedEffect)>) -> bool
{
    match s0.app.state {
        AppState::Bip85Index { word_count } => match bip85_tap_spec(n0.bip85_index, hit.x, hit.y, hit.is_back, ctx.seed_loaded) {
            Bip85Tap::Back => seed_out(s1, n1, out, goto(s0, AppState::SeedToolsMenu), n0, true, SeedEffect::NoEffect),
            Bip85Tap::Index { index } =>
                seed_out(s1, n1, out, s0, SeedNav { bip85_index: index, ..n0 }, false, SeedEffect::ShowIndex { index }),
            Bip85Tap::Derive => seed_out(s1, n1, out, s0, n0, true, SeedEffect::DeriveChild { word_count }),
            Bip85Tap::NeedSeed => seed_out(s1, n1, out, s0, n0, false, SeedEffect::Refuse { reason: SeedRefusal::NeedSeed }),
            Bip85Tap::Nothing => seed_out(s1, n1, out, s0, n0, false, SeedEffect::NoEffect),
        },
        AppState::Bip85ShowWord { word_idx, word_count } => {
            let st = show_word_next(word_idx, word_count, hit.is_back);
            seed_out(s1, n1, out, goto(s0, st), n0, true,
                if st == AppState::SeedToolsMenu { SeedEffect::WipeChild } else { SeedEffect::NoEffect })
        },
        AppState::Bip85Deriving => seed_out(s1, n1, out, s0, n0, false, SeedEffect::NoEffect),
        AppState::ImportPrivKey => {
            if hit.is_back {
                seed_out(s1, n1, out, goto(s0, AppState::ImportMenu), SeedNav { hex: HexEntry { len: 0, ..n0.hex }, ..n0 },
                    true, SeedEffect::NoEffect)
            } else {
                &&& s1 == s0
                &&& n1 == SeedNav { hex: n1.hex, ..n0 }
                &&& match ctx.key {
                    KeyAction::Char { .. } | KeyAction::Backspace => out == Some((false, SeedEffect::HexEdited)),
                    KeyAction::Confirm => n1.hex == n0.hex && if n0.hex.len < 64 {
                        out == Some((false, SeedEffect::NoEffect))
                    } else if all_hex(n0.hex.buf@) {
                        out matches Some((true, SeedEffect::ImportKey { privkey })) && privkey@ == hex_decode(n0.hex.buf@)
                    } else {
                        out == Some((true, SeedEffect::Refuse { reason: SeedRefusal::InvalidHex }))
                    },
                    _ => n1.hex == n0.hex && out == Some((false, SeedEffect::NoEffect)),
                }
                &&& (ctx.key matches KeyAction::Char { ch } ==> if n0.hex.len < 64 {
                        n1.hex.len == n0.hex.len + 1 && n1.hex.buf@ == n0.hex.buf@.update(n0.hex.len as int, hex_lower_case(ch))
                    } else {
                        n1.hex == n0.hex
                    })
                &&& (ctx.key == KeyAction::Backspace ==> n1.hex.buf == n0.hex.buf
                        && n1.hex.len == (if n0.hex.len > 0 { n0.hex.len - 1 } else { 0 }))
            }
        },
        AppState::ImportWord { word_idx, word_count } =>
            word_screen_touch(s0, n0, ctx, hit, false, word_idx, word_count, s1, n1, out),
        AppState::CalcLastWord { word_idx, word_count } =>
            word_screen_touch(s0, n0, ctx, hit, true, word_idx, word_count, s1, n1, out),
        AppState::PassphraseEntry => {
            if hit.is_back {
                seed_out(s1, n1, out, goto(s0, AppState::SeedToolsMenu), n0, true, SeedEffect::ClearPassphrase)
            } else if ctx.pp_key == 6 {
                seed_out(s1, n1, out, s0, n0, true, SeedEffect::StoreSeed)
            } else if ctx.pp_key == 1 || ctx.pp_key == 2 || ctx.pp_key == 4 || ctx.pp_key == 5 {
                seed_out(s1, n1, out, s0, n0, false, SeedEffect::PassphraseKey { code: ctx.pp_key })
            } else {
                seed_out(s1, n1, out, s0, n0, false, SeedEffect::NoEffect)
            }
        },
        AppState::SeedList => {
            if hit.is_back {
                went_home(s0, s1) && n1 == SeedNav { scroll: 0, ..n0 } && out == Some((true, SeedEffect::NoEffect))
            } else {
                let (sc, t) = seed_list_tap_spec(n0.scroll, loaded, ctx.max_slots as nat, hit.x, hit.y, ctx.seed_loaded);
                let n = SeedNav { scroll: sc, ..n0 };
                match t {
                    SeedListTap::Nothing => seed_out(s1, n1, out, s0, n, false, SeedEffect::NoEffect),
                    SeedListTap::PageUp | SeedListTap::PageDown => seed_out(s1, n1, out, s0, n, true, SeedEffect::NoEffect),
                    SeedListTap::NeedSeed => seed_out(s1, n1, out, goto(tools_reset(s0), AppState::SeedToolsMenu), n, true,
                        SeedEffect::Refuse { reason: SeedRefusal::NeedSeed }),
                    SeedListTap::Address => seed_out(s1, n1, out, goto(s0, AppState::ShowAddress), n, true, SeedEffect::ShowAddress),
                    SeedListTap::Export => if ctx.active_word_count == 1 {
                        seed_out(s1, n1, out, goto(s0, AppState::ExportPrivKey), n, true, SeedEffect::ExportRawKey)
                    } else {
                        seed_out(s1, n1, out, goto(s0, AppState::ExportChoice), n, true, SeedEffect::NoEffect)
                    },
                    SeedListTap::AddSeed => seed_out(s1, n1, out, goto(tools_reset(s0), AppState::ToolsMenu), n, true, SeedEffect::NoEffect),
                    SeedListTap::Delete { slot } => seed_out(s1, n1, out, goto(s0, AppState::ConfirmDeleteSeed),
                        SeedNav { pending_delete: slot, ..n }, true, SeedEffect::NoEffect),
                    SeedListTap::Activate { slot } => seed_out(s1, n1, out, s0, n, true, SeedEffect::Activate { slot }),
                }
            }
        },
        AppState::ConfirmDeleteSeed => {
            if hit.is_back {
                seed_out(s1, n1, out, goto(s0, AppState::SeedList), SeedNav { pending_delete: 0xFF, ..n0 }, true, SeedEffect::NoEffect)
            } else if in_span(hit.y, 180, 230) && in_span(hit.x, 30, 150) {
                seed_out(s1, n1, out, goto(s0, AppState::SeedList), SeedNav { pending_delete: 0xFF, ..n0 }, true, SeedEffect::Click)
            } else if in_span(hit.y, 180, 230) && in_span(hit.x, 170, 290) {
                seed_out(s1, n1, out, s0, n0, true, SeedEffect::HoldToDelete)
            } else {
                seed_out(s1, n1, out, s0, n0, false, SeedEffect::NoEffect)
            }
        },
        _ => s1 == s0 && n1 == n0 && out is None,
    }
}

/// The word screens point inside the mnemonic.
pub open spec fn word_screen_ok(st: AppState) -> bool {
    &&& (st matches AppState::ImportWord { word_idx, .. } ==> word_idx < 24)
    &&& (st matches AppState::CalcLastWord { word_idx, .. } ==> word_idx < 24)
}

/// Take word `idx` at `word_idx` (see [`word_taken`]).
fn take_word(s: &mut UiState, n: &mut SeedNav, calc_last: bool, word_idx: u8, word_count: u8, idx: u16)
    -> (out: Option<(bool, SeedEffect)>)
    requires
        word_idx < 24,
    ensures
        word_taken(*old(s), *old(n), calc_last, word_idx, word_count, idx, *final(s), *final(n), out),
        final(s).menus == old(s).menus,
        final(s).cam == old(s).cam,
{
    match word_entered(&mut n.mnemonic, calc_last, word_idx, word_count, idx) {
        Some(st) => {
            s.app.state = st;
            Some((false, SeedEffect::NextWord))
        },
        None => {
            if calc_last {
                s.app.state = AppState::PassphraseEntry;
                Some((true, SeedEffect::ComputeLastWord))
            } else {
                Some((true, SeedEffect::CheckMnemonic))
            }
        },
    }
}

/// Answer a word screen (see [`word_screen_touch`]).
fn word_screen_step(s: &mut UiState, n: &mut SeedNav, ctx: SeedContext, hit: TouchHit, calc_last: bool,
    word_idx: u8, word_count: u8) -> (out: Option<(bool, SeedEffect)>)
    requires
        word_idx < 24,
    ensures
        word_screen_touch(*old(s), *old(n), ctx, hit, calc_last, word_idx, word_count, *final(s), *final(n), out),
        final(s).menus == old(s).menus,
        final(s).cam == old(s).cam,
{
    if hit.is_back {
        s.app.state = AppState::SeedToolsMenu;
        return Some((true, SeedEffect::ClearWord));
    }
    if let Some(idx) = ctx.suggestion {
        return take_word(s, n, calc_last, word_idx, word_count, idx);
    }
    match ctx.key {
        KeyAction::Char { .. } | KeyAction::Backspace => Some((false, SeedEffect::WordKey { action: ctx.key })),
        KeyAction::Confirm => match ctx.matched {
            Some(idx) => take_word(s, n, calc_last, word_idx, word_count, idx),
            None => Some((false, SeedEffect::NoEffect)),
        },
        KeyAction::Cancel => {
            s.app.state = AppState::SeedToolsMenu;
            Some((true, SeedEffect::ClearWord))
        },
        KeyAction::NoKey => Some((false, SeedEffect::NoEffect)),
    }
}

/// Handle a touch on the seed screens (see [`seed_touch_spec`]).
pub fn handle_seed_touch(s: &mut UiState, n: &mut SeedNav, ctx: SeedContext, loaded: &[u8], hit: TouchHit)
    -> (out: Option<(bool, SeedEffect)>)
    requires
        old(s).wf(),
        old(n).hex.wf(),
        word_screen_ok(old(s).app.state),
        loaded@.len() < 255,
    ensures
        seed_touch_spec(*old(s), *old(n), ctx, loaded@, hit, *final(s), *final(n), out),
        out is Some <==> handler_group_of(old(s).app.state) == HandlerGroup::Seed,
        final(s).wf(),
        final(n).hex.wf(),
{
    match s.app.state {
        AppState::Bip85Index { word_count } => {
            match bip85_tap(n.bip85_index, hit.x, hit.y, hit.is_back, ctx.seed_loaded) {
                Bip85Tap::Back => {
                    s.app.state = AppState::SeedToolsMenu;
                    Some((true, SeedEffect::NoEffect))
                },
                Bip85Tap::Index { index } => {
                    n.bip85_index = index;
                    Some((false, SeedEffect::ShowIndex { index }))
                },
                Bip85Tap::Derive => Some((true, SeedEffect::DeriveChild { word_count })),
                Bip85Tap::NeedSeed => Some((false, SeedEffect::Refuse { reason: SeedRefusal::NeedSeed })),
                Bip85Tap::Nothing => Some((false, SeedEffect::NoEffect)),
            }
        },
        AppState::Bip85ShowWord { word_idx, word_count } => {
            let st = show_word_tap(word_idx, word_count, hit.is_back);
            s.app.state = st;
            let wiped = match st { AppState::SeedToolsMenu => true, _ => false };
            Some((true, if wiped { SeedEffect::WipeChild } else { SeedEffect::NoEffect }))
        },
        AppState::Bip85Deriving => Some((false, SeedEffect::NoEffect)),
        AppState::ImportPrivKey => {
            if hit.is_back {
                n.hex.len = 0;
                s.app.state = AppState::ImportMenu;
                return Some((true, SeedEffect::NoEffect));
            }
            match n.hex.press(ctx.key) {
                HexEntryStep::Edited => Some((false, SeedEffect::HexEdited)),
                HexEntryStep::Incomplete => Some((false, SeedEffect::NoEffect)),
                HexEntryStep::InvalidHex => Some((true, SeedEffect::Refuse { reason: SeedRefusal::InvalidHex })),
                HexEntryStep::Key { key } => Some((true, SeedEffect::ImportKey { privkey: key })),
                HexEntryStep::Ignored => Some((false, SeedEffect::NoEffect)),
            }
        },
        AppState::ImportWord { word_idx, word_count } => word_screen_step(s, n, ctx, hit, false, word_idx, word_count),
        AppState::CalcLastWord { word_idx, word_count } => word_screen_step(s, n, ctx, hit, true, word_idx, word_count),
        AppState::PassphraseEntry => {
            if hit.is_back {
                s.app.state = AppState::SeedToolsMenu;
                Some((true, SeedEffect::ClearPassphrase))
            } else if ctx.pp_key == 6 {
                Some((true, SeedEffect::StoreSeed))
            } else if ctx.pp_key == 1 || ctx.pp_key == 2 || ctx.pp_key == 4 || ctx.pp_key == 5 {
                Some((false, SeedEffect::PassphraseKey { code: ctx.pp_key }))
            } else {
                Some((false, SeedEffect::NoEffect))
            }
        },
        AppState::SeedList => {
            if hit.is_back {
                n.scroll = 0;
                s.app.go_main_menu();
                return Some((true, SeedEffect::NoEffect));
            }
            let (sc, t) = seed_list_tap(n.scroll, loaded, ctx.max_slots, hit.x, hit.y, ctx.seed_loaded);
            n.scroll = sc;
            match t {
                SeedListTap::Nothing => Some((false, SeedEffect::NoEffect)),
                SeedListTap::PageUp | SeedListTap::PageDown => Some((true, SeedEffect::NoEffect)),
                SeedListTap::NeedSeed => {
                    s.menus.tools.reset();
                    s.app.state = AppState::SeedToolsMenu;
                    Some((true, SeedEffect::Refuse { reason: SeedRefusal::NeedSeed }))
                },
                SeedListTap::Address => {
                    s.app.state = AppState::ShowAddress;
                    Some((true, SeedEffect::ShowAddress))
                },
                SeedListTap::Export => {
                    if ctx.active_word_count == 1 {
                        s.app.state = AppState::ExportPrivKey;
                        Some((true, SeedEffect::ExportRawKey))
                    } else {
                        s.app.state = AppState::ExportChoice;
                        Some((true, SeedEffect::NoEffect))
                    }
                },
                SeedListTap::AddSeed => {
                    s.menus.tools.reset();
                    s.app.state = AppState::ToolsMenu;
                    Some((true, SeedEffect::NoEffect))
                },
                SeedListTap::Delete { slot } => {
                    n.pending_delete = slot;
                    s.app.state = AppState::ConfirmDeleteSeed;
                    Some((true, SeedEffect::NoEffect))
                },
                SeedListTap::Activate { slot } => Some((true, SeedEffect::Activate { slot })),
            }
        },
        AppState::ConfirmDeleteSeed => {
            if hit.is_back {
                n.pending_delete = 0xFF;
                s.app.state = AppState::SeedList;
                Some((true, SeedEffect::NoEffect))
            } else if 180 <= hit.y && hit.y <= 230 && 30 <= hit.x && hit.x <= 150 {
                n.pending_delete = 0xFF;
                s.app.state = AppState::SeedList;
                Some((true, SeedEffect::Click))
            } else if 180 <= hit.y && hit.y <= 230 && 170 <= hit.x && hit.x <= 290 {
                Some((true, SeedEffect::HoldToDelete))
            } else {
                Some((false, SeedEffect::NoEffect))
            }
        },
        _ => None,
    }
}

// ─── After the caller's work ───────────────────────────────────────

/// Where the child-seed screen goes once the derivation ran: the child's
/// first word, or the seed tools when it failed.
pub fn bip85_derived_next(ok: bool, word_count: u8) -> (st: AppState)
    ensures
        st == (if ok { AppState::Bip85ShowWord { word_idx: 0, word_count } } else { AppState::SeedToolsMenu }),
{
    if ok { AppState::Bip85ShowWord { word_idx: 0, word_count } } else { AppState::SeedToolsMenu }
}

/// Where the import goes once the mnemonic was checked: the passphrase
/// (entry cleared), or the seed tools with "Invalid seed phrase".
pub fn mnemonic_checked_next(valid: bool) -> (st: AppState)
    ensures
        st == (if valid { AppState::PassphraseEntry } else { AppState::SeedToolsMenu }),
{
    if valid { AppState::PassphraseEntry } else { AppState::SeedToolsMenu }
}

/// Where the raw-key import goes once the key was checked and stored: the
/// seeds menu; `None` (refused: not on the curve, or every slot full)
/// stays on the keyboard.
pub fn raw_key_stored_next(stored: bool) -> (st: Option<AppState>)
    ensures
        st == (if stored { Some(AppState::SeedsMenu) } else { None }),
{
    if stored { Some(AppState::SeedsMenu) } else { None }
}


// ─── Seed slots and the active seed ────────────────────────────────

/// A seed slot: whether it holds a seed, the word indices (or, with two
/// "words", an imported extended key's raw form), the word count and the
/// passphrase field.
#[derive(Clone, Copy)]
pub struct SeedSlot {
    pub used: bool,
    pub indices: [u16; 24],
    pub word_count: u8,
    pub passphrase: [u8; 33],
}

/// The seed slots and the active one.
pub struct SeedBank {
    pub slots: Vec<SeedSlot>,
    pub active: u8,
}

/// What the device keeps of the active seed besides its words (held in
/// [`SeedNav::mnemonic`]): its word count, whether it is loaded, the address
/// caches and the key material derived from it.
#[derive(Clone, Copy)]
pub struct ActiveSeed {
    pub word_count: u8,
    pub seed_loaded: bool,
    pub pubkeys_cached: bool,
    pub current_addr_index: u16,
    pub extra_pubkey_index: u16,
    pub acct_key_raw: [u8; 65],
    pub pubkey_cache: [[u8; 32]; 20],
    pub extra_pubkey: [u8; 32],
    pub our_privkey: [u8; 32],
}

/// `n` zero bytes.
pub open spec fn zeros(n: nat) -> Seq<u8> {
    Seq::new(n, |i: int| 0u8)
}

/// The slot holds nothing: no seed, and zeros in every field.
pub open spec fn slot_cleared(s: SeedSlot) -> bool {
    &&& !s.used
    &&& s.word_count == 0
    &&& s.indices@ == Seq::new(24, |i: int| 0u16)
    &&& s.passphrase@ == zeros(33)
}

/// The raw form of the extended key a slot of two "words" holds (see
/// [`xprv_raw_from_slot`]).
pub open spec fn xprv_raw_spec(indices: Seq<u16>, passphrase: Seq<u8>) -> Seq<u8> {
    Seq::new(65, |i: int|
        if i < 32 {
            if i % 2 == 0 { (indices[i / 2] % 256) as u8 } else { (indices[i / 2] / 256) as u8 }
        } else {
            passphrase[i - 32]
        })
}

/// The key caches hold zeros: every cached address key, the extra address
/// key and the signing key.
pub open spec fn caches_zero(a: ActiveSeed) -> bool {
    &&& forall|i: int| 0 <= i < 20 ==> #[trigger] a.pubkey_cache[i]@ == zeros(32)
    &&& a.extra_pubkey@ == zeros(32)
    &&& a.our_privkey@ == zeros(32)
}

/// `a1` is `a0` with the seed of `slot` made active: its word count, loaded,
/// addresses to derive afresh from the first, and for an extended key its
/// raw form as the account key (any other account key stays).
pub open spec fn is_activation(a0: ActiveSeed, slot: SeedSlot, a1: ActiveSeed) -> bool {
    &&& a1 == (ActiveSeed { acct_key_raw: a1.acct_key_raw, word_count: slot.word_count, seed_loaded: true,
        pubkeys_cached: false, current_addr_index: 0, extra_pubkey_index: 0xFFFF, ..a0 })
    &&& if slot.word_count == 2 {
        a1.acct_key_raw@ == xprv_raw_spec(slot.indices@, slot.passphrase@)
    } else {
        a1.acct_key_raw == a0.acct_key_raw
    }
}

/// Make slot `i` the active seed: the bank points at it, its words become
/// the mnemonic, and the active seed changes as [`is_activation`] says.
pub fn activate_slot(bank: &mut SeedBank, act: &mut ActiveSeed, n: &mut SeedNav, i: usize)
    requires
        i < old(bank).slots@.len() <= 255,
    ensures
        final(bank).slots@ == old(bank).slots@,
        final(bank).active == i,
        *final(n) == (SeedNav { mnemonic: old(bank).slots@[i as int].indices, ..*old(n) }),
        is_activation(*old(act), old(bank).slots@[i as int], *final(act)),
{
    bank.active = i as u8;
    let slot = bank.slots[i];
    n.mnemonic = slot.indices;
    act.word_count = slot.word_count;
    act.seed_loaded = true;
    act.pubkeys_cached = false;
    act.current_addr_index = 0;
    act.extra_pubkey_index = 0xFFFF;
    if slot.word_count == 2 {
        act.acct_key_raw = xprv_raw_from_slot(&slot.indices, &slot.passphrase);
        proof {
            let raw = act.acct_key_raw@;
            assert forall|k: int| 0 <= k < 65 implies raw[k] == xprv_raw_spec(slot.indices@, slot.passphrase@)[k] by {
                if k < 32 {
                    let j = k / 2;
                    if k % 2 == 0 {
                        assert(raw[2 * j] == slot.indices@[j] % 256);
                    } else {
                        assert(raw[2 * j + 1] == slot.indices@[j] / 256);
                    }
                } else {
                    assert(raw.skip(32)[k - 32] == slot.passphrase@[k - 32]);
                }
            }
            assert(raw =~= xprv_raw_spec(slot.indices@, slot.passphrase@));
        }
    }
}

/// The first slot from `from` on that holds a seed.
pub open spec fn first_used(slots: Seq<SeedSlot>, from: nat) -> Option<nat>
    decreases slots.len() - from,
{
    if from >= slots.len() {
        None
    } else if slots[from as int].used {
        Some(from)
    } else {
        first_used(slots, from + 1)
    }
}

fn next_used_slot(slots: &Vec<SeedSlot>) -> (r: Option<usize>)
    ensures
        match r {
            Some(i) => first_used(slots@, 0) == Some(i as nat) && i < slots@.len(),
            None => first_used(slots@, 0) is None,
        },
{
    let mut i: usize = 0;
    while i < slots.len()
        invariant
            i <= slots@.len(),
            first_used(slots@, i as nat) == first_used(slots@, 0),
        decreases slots@.len() - i,
    {
        if slots[i].used {
            return Some(i);
        }
        i = i + 1;
    }
    None
}

/// Clear the key caches (see [`caches_zero`]) and the account key.
fn wipe_keys(act: &mut ActiveSeed)
    ensures
        *final(act) == (ActiveSeed { acct_key_raw: final(act).acct_key_raw, pubkey_cache: final(act).pubkey_cache,
            extra_pubkey: final(act).extra_pubkey, our_privkey: final(act).our_privkey, ..*old(act) }),
        caches_zero(*final(act)),
        final(act).acct_key_raw@ == zeros(65),
{
    act.pubkey_cache = [[0u8; 32]; 20];
    act.extra_pubkey = [0u8; 32];
    act.our_privkey = [0u8; 32];
    act.acct_key_raw = [0u8; 65];
    assert(act.extra_pubkey@ =~= zeros(32));
    assert(act.our_privkey@ =~= zeros(32));
    assert(act.acct_key_raw@ =~= zeros(65));
    assert forall|i: int| 0 <= i < 20 implies #[trigger] act.pubkey_cache[i]@ == zeros(32) by {
        assert(act.pubkey_cache[i]@ =~= zeros(32));
    }
}

/// The end of the seed deletion screen, once the hold-to-delete gesture
/// ended: the seed list comes back and the pending slot is forgotten. When
/// the gesture confirmed and the pending slot exists, that slot is cleared;
/// if it was the active seed, the keys of the old seed are wiped and the
/// first slot still holding a seed becomes active (see [`is_activation`]),
/// or, with none left, no seed is loaded any more.
pub fn finish_seed_delete(s: &mut UiState, n: &mut SeedNav, bank: &mut SeedBank, act: &mut ActiveSeed, confirmed: bool)
    requires
        old(bank).slots@.len() <= 255,
    ensures
        *final(s) == goto(*old(s), AppState::SeedList),
        final(n).pending_delete == 0xFF,
        ({
            let p = old(n).pending_delete as int;
            let slots = old(bank).slots@;
            if !confirmed || p >= slots.len() {
                &&& final(bank).slots@ == slots && final(bank).active == old(bank).active
                &&& *final(act) == *old(act)
                &&& *final(n) == (SeedNav { pending_delete: 0xFF, ..*old(n) })
            } else {
                &&& final(bank).slots@.len() == slots.len()
                &&& slot_cleared(final(bank).slots@[p])
                &&& forall|j: int| 0 <= j < slots.len() && j != p ==> #[trigger] final(bank).slots@[j] == slots[j]
                &&& if old(bank).active != p {
                    &&& final(bank).active == old(bank).active
                    &&& *final(act) == *old(act)
                    &&& *final(n) == (SeedNav { pending_delete: 0xFF, ..*old(n) })
                } else {
                    &&& caches_zero(*final(act))
                    &&& match first_used(final(bank).slots@, 0) {
                        Some(k) => {
                            let slot = final(bank).slots@[k as int];
                            &&& final(bank).active == k
                            &&& *final(n) == (SeedNav { pending_delete: 0xFF, mnemonic: slot.indices, ..*old(n) })
                            &&& *final(act) == (ActiveSeed { acct_key_raw: final(act).acct_key_raw,
                                pubkey_cache: final(act).pubkey_cache, extra_pubkey: final(act).extra_pubkey,
                                our_privkey: final(act).our_privkey, word_count: slot.word_count, seed_loaded: true,
                                pubkeys_cached: false, current_addr_index: 0, extra_pubkey_index: 0xFFFF, ..*old(act) })
                            &&& final(act).acct_key_raw@ == (if slot.word_count == 2 {
                                xprv_raw_spec(slot.indices@, slot.passphrase@) } else { zeros(65) })
                        },
                        None => {
                            &&& final(bank).active == old(bank).active
                            &&& *final(n) == (SeedNav { pending_delete: 0xFF, ..*old(n) })
                            &&& *final(act) == (ActiveSeed { acct_key_raw: final(act).acct_key_raw,
                                pubkey_cache: final(act).pubkey_cache, extra_pubkey: final(act).extra_pubkey,
                                our_privkey: final(act).our_privkey, seed_loaded: false, pubkeys_cached: false,
                                current_addr_index: 0, extra_pubkey_index: 0xFFFF, ..*old(act) })
                            &&& final(act).acct_key_raw@ == zeros(65)
                        },
                    }
                }
            }
        }),
{
    let p = n.pending_delete as usize;
    n.pending_delete = 0xFF;
    s.app.state = AppState::SeedList;
    if !confirmed || p >= bank.slots.len() {
        return;
    }
    let was_active = bank.active as usize == p;
    let cleared = SeedSlot { used: false, indices: [0u16; 24], word_count: 0, passphrase: [0u8; 33] };
    assert(cleared.indices@ =~= Seq::new(24, |i: int| 0u16));
    assert(cleared.passphrase@ =~= zeros(33));
    bank.slots.set(p, cleared);
    if !was_active {
        return;
    }
    wipe_keys(act);
    match next_used_slot(&bank.slots) {
        Some(k) => {
            activate_slot(bank, act, n, k);
        },
        None => {
            act.seed_loaded = false;
            act.pubkeys_cached = false;
            act.current_addr_index = 0;
            act.extra_pubkey_index = 0xFFFF;
        },
    }
}

} // verus!
