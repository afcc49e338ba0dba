//! Input handling: debounced buttons, page-scrolled menus and the wallet
//! application state machine.
//!
//! Single-button navigation: a short press moves the cursor, a long press
//! selects. The PIR sensor acts as an optional back/cancel button.

use vstd::prelude::*;

verus! {

// ─── Configurable parameters ───────────────────────────────────────

/// BOOT button debounce (ms).
pub const BOOT_DEBOUNCE_MS: u32 = 50;
/// BOOT button short/long press threshold (ms).
pub const BOOT_LONG_PRESS_MS: u32 = 800;
/// PIR debounce (ms).
pub const PIR_DEBOUNCE_MS: u32 = 500;
/// PIR long press (ms).
pub const PIR_LONG_PRESS_MS: u32 = 2000;
/// PIR cooldown (ms).
pub const PIR_COOLDOWN_MS: u32 = 1000;

// ─── Button events ─────────────────────────────────────────────────

/// Physical button events (short press, long press, none).
#[derive(Debug, Clone, Copy, PartialEq, Eq, Structural)]
pub enum ButtonEvent {
    ShortPress,
    LongPress,
    NoEvent,
}

// ─── Debounced button ──────────────────────────────────────────────

/// Debounced button state machine with hold detection.
pub struct Button {
    was_pressed: bool,
    press_start: u32,
    last_event: u32,
    time_ms: u32,
    pending_press: bool,
    debounce_ms: u32,
    long_press_ms: u32,
    cooldown_ms: u32,
}

/// The observable state of a [`Button`].
pub struct ButtonView {
    pub was_pressed: bool,
    pub press_start: u32,
    pub last_event: u32,
    pub time_ms: u32,
    pub pending_press: bool,
    pub debounce_ms: u32,
    pub long_press_ms: u32,
    pub cooldown_ms: u32,
}

impl View for Button {
    type V = ButtonView;

    closed spec fn view(&self) -> ButtonView {
        ButtonView {
            was_pressed: self.was_pressed,
            press_start: self.press_start,
            last_event: self.last_event,
            time_ms: self.time_ms,
            pending_press: self.pending_press,
            debounce_ms: self.debounce_ms,
            long_press_ms: self.long_press_ms,
            cooldown_ms: self.cooldown_ms,
        }
    }
}

/// `a + b` modulo 2^32.
pub open spec fn add_mod32(a: u32, b: u32) -> u32 {
    ((a as int + b as int) % 0x1_0000_0000) as u32
}

/// `a - b` modulo 2^32.
pub open spec fn sub_mod32(a: u32, b: u32) -> u32 {
    ((a as int - b as int) % 0x1_0000_0000) as u32
}

/// A freshly created button with the given thresholds.
pub open spec fn fresh_button(debounce_ms: u32, long_press_ms: u32, cooldown_ms: u32) -> ButtonView {
    ButtonView {
        was_pressed: false,
        press_start: 0,
        last_event: 0,
        time_ms: 0,
        pending_press: false,
        debounce_ms,
        long_press_ms,
        cooldown_ms,
    }
}

/// The button is inside its cooldown window at time `now`: some event was
/// reported and less than `cooldown_ms` have elapsed since.
pub open spec fn in_cooldown(b: ButtonView, now: u32) -> bool {
    b.cooldown_ms > 0 && b.last_event > 0 && sub_mod32(now, b.last_event) < b.cooldown_ms
}

/// One step of the debounced button: advance the clock by `elapsed` ms and
/// observe the raw level `active`. Gives the next state and the reported event.
pub open spec fn button_step(b: ButtonView, active: bool, elapsed: u32) -> (ButtonView, ButtonEvent) {
    let now = add_mod32(b.time_ms, elapsed);
    let b1 = ButtonView { time_ms: now, ..b };
    if in_cooldown(b, now) {
        (ButtonView { was_pressed: active, pending_press: false, ..b1 }, ButtonEvent::NoEvent)
    } else if active && !b.was_pressed {
        (ButtonView { press_start: now, pending_press: true, was_pressed: true, ..b1 }, ButtonEvent::NoEvent)
    } else if !active && b.was_pressed {
        let duration = sub_mod32(now, b.press_start);
        if !b.pending_press {
            (ButtonView { was_pressed: false, ..b1 }, ButtonEvent::NoEvent)
        } else if duration >= b.long_press_ms {
            (ButtonView { was_pressed: false, pending_press: false, last_event: now, ..b1 }, ButtonEvent::LongPress)
        } else if duration >= b.debounce_ms {
            (ButtonView { was_pressed: false, pending_press: false, last_event: now, ..b1 }, ButtonEvent::ShortPress)
        } else {
            (ButtonView { was_pressed: false, pending_press: false, ..b1 }, ButtonEvent::NoEvent)
        }
    } else {
        (b1, ButtonEvent::NoEvent)
    }
}

impl Button {
    /// A BOOT button with the BOOT debounce and long-press thresholds and no cooldown.
    pub fn new() -> (b: Self)
        ensures
            b@ == fresh_button(BOOT_DEBOUNCE_MS, BOOT_LONG_PRESS_MS, 0),
    {
        Button {
            was_pressed: false,
            press_start: 0,
            last_event: 0,
            time_ms: 0,
            pending_press: false,
            debounce_ms: BOOT_DEBOUNCE_MS,
            long_press_ms: BOOT_LONG_PRESS_MS,
            cooldown_ms: 0,
        }
    }

    /// Create a PIR-optimized Button with longer thresholds.
    pub fn new_pir() -> (b: Self)
        ensures
            b@ == fresh_button(PIR_DEBOUNCE_MS, PIR_LONG_PRESS_MS, PIR_COOLDOWN_MS),
    {
        Button {
            was_pressed: false,
            press_start: 0,
            last_event: 0,
            time_ms: 0,
            pending_press: false,
            debounce_ms: PIR_DEBOUNCE_MS,
            long_press_ms: PIR_LONG_PRESS_MS,
            cooldown_ms: PIR_COOLDOWN_MS,
        }
    }

    /// Update button state and return any triggered event.
    pub fn update(&mut self, active: bool, elapsed_ms: u32) -> (ev: ButtonEvent)
        ensures
            (final(self)@, ev) == button_step(old(self)@, active, elapsed_ms),
            // the thresholds never change
            final(self)@.debounce_ms == old(self)@.debounce_ms,
            final(self)@.long_press_ms == old(self)@.long_press_ms,
            final(self)@.cooldown_ms == old(self)@.cooldown_ms,
            // after every step the button remembers the level it just saw
            final(self)@.was_pressed == active,
            // an event is only ever reported when a pending press is released
            ev != ButtonEvent::NoEvent ==> !active && old(self)@.was_pressed && old(self)@.pending_press,
            // no event is reported inside the cooldown window
            in_cooldown(old(self)@, add_mod32(old(self)@.time_ms, elapsed_ms)) ==> ev == ButtonEvent::NoEvent,
            // a reported event is stamped with the current time
            ev != ButtonEvent::NoEvent ==> final(self)@.last_event == final(self)@.time_ms,
    {
        self.time_ms = self.time_ms.wrapping_add(elapsed_ms);
        let now = self.time_ms;

        if self.cooldown_ms > 0 && self.last_event > 0 {
            let since_last = now.wrapping_sub(self.last_event);
            if since_last < self.cooldown_ms {
                self.was_pressed = active;
                self.pending_press = false;
                return ButtonEvent::NoEvent;
            }
        }

        if active && !self.was_pressed {
            self.press_start = now;
            self.pending_press = true;
            self.was_pressed = true;
        } else if !active && self.was_pressed {
            self.was_pressed = false;
            if self.pending_press {
                self.pending_press = false;
                let duration = now.wrapping_sub(self.press_start);
                if duration >= self.long_press_ms {
                    self.last_event = now;
                    return ButtonEvent::LongPress;
                } else if duration >= self.debounce_ms {
                    self.last_event = now;
                    return ButtonEvent::ShortPress;
                }
            }
        }

        ButtonEvent::NoEvent
    }
}


// ─── Generic menu ──────────────────────────────────────────────────

/// Maximum menu items.
pub const MAX_MENU_ITEMS: usize = 16;

/// Maximum visible rows per page.
pub const MAX_VISIBLE: u8 = 4;

/// A menu with up to 16 items, page-scrolled one page of rows at a time.
pub struct Menu {
    /// Number of active items
    pub count: u8,
    /// Currently highlighted item (cursor position)
    pub cursor: u8,
    /// Scroll offset (first visible item index, always a multiple of MAX_VISIBLE)
    pub scroll: u8,
    /// Item labels (static strings)
    pub items: [&'static str; 16],
}

/// The scroll offset after paging up from `scroll`.
pub open spec fn page_up_scroll(scroll: u8) -> u8 {
    if scroll >= MAX_VISIBLE { (scroll - MAX_VISIBLE) as u8 } else { 0 }
}

/// The scroll offset after paging down from `scroll`.
pub open spec fn page_down_scroll(scroll: u8) -> u8 {
    (scroll + MAX_VISIBLE) as u8
}

impl Menu {
    /// The menu is consistent: at most 16 items, the cursor on an item (or 0
    /// when there is none), and the scroll offset on a page boundary that
    /// shows at least one item.
    pub open spec fn wf(&self) -> bool {
        &&& self.count <= MAX_MENU_ITEMS
        &&& (if self.count == 0 { self.cursor == 0 } else { self.cursor < self.count })
        &&& self.scroll % MAX_VISIBLE == 0
        &&& (self.scroll == 0 || self.scroll < self.count)
    }

    /// The menu after a short press: the cursor moves to the next item, wrapping.
    pub open spec fn next_spec(self) -> Menu {
        if self.count > 0 {
            Menu { cursor: ((self.cursor + 1) % (self.count as int)) as u8, ..self }
        } else {
            self
        }
    }

    /// The menu after moving the cursor one item back, wrapping.
    pub open spec fn prev_spec(self) -> Menu {
        if self.count > 0 {
            if self.cursor == 0 {
                Menu { cursor: (self.count - 1) as u8, ..self }
            } else {
                Menu { cursor: (self.cursor - 1) as u8, ..self }
            }
        } else {
            self
        }
    }

    /// Create a new empty menu.
    pub fn new() -> (m: Self)
        ensures
            m.count == 0,
            m.cursor == 0,
            m.scroll == 0,
            forall|i: int| 0 <= i < MAX_MENU_ITEMS ==> m.items@[i] == "",
            m.wf(),
    {
        Menu { count: 0, cursor: 0, scroll: 0, items: [""; 16] }
    }

    /// Create a menu from a slice of labels; labels past the 16th are dropped.
    pub fn from_items(labels: &[&'static str]) -> (m: Self)
        ensures
            m.count as int == if labels@.len() < MAX_MENU_ITEMS { labels@.len() as int } else { MAX_MENU_ITEMS as int },
            m.cursor == 0,
            m.scroll == 0,
            forall|i: int| 0 <= i < m.count ==> m.items@[i] == labels@[i],
            forall|i: int| m.count <= i < MAX_MENU_ITEMS ==> m.items@[i] == "",
            m.wf(),
    {
        let mut menu = Self::new();
        let n = if labels.len() < MAX_MENU_ITEMS { labels.len() } else { MAX_MENU_ITEMS };
        let mut i: usize = 0;
        while i < n
            invariant
                n <= MAX_MENU_ITEMS,
                n <= labels@.len(),
                i <= n,
                menu.count == 0,
                menu.cursor == 0,
                menu.scroll == 0,
                forall|j: int| 0 <= j < i ==> menu.items@[j] == labels@[j],
                forall|j: int| i <= j < MAX_MENU_ITEMS ==> menu.items@[j] == "",
            decreases n - i,
        {
            menu.items[i] = labels[i];
            i = i + 1;
        }
        menu.count = n as u8;
        menu
    }

    /// Handle a button event: a short press moves the cursor to the next item
    /// (wrapping), a long press selects the current item.
    /// Returns `Some(selected_index)` on a long press, `None` otherwise.
    pub fn handle(&mut self, event: ButtonEvent) -> (sel: Option<u8>)
        requires
            event == ButtonEvent::ShortPress && old(self).count > 0 ==> old(self).cursor < u8::MAX,
        ensures
            event == ButtonEvent::ShortPress ==> *final(self) == old(self).next_spec() && sel is None,
            event == ButtonEvent::LongPress ==> *final(self) == *old(self) && sel == Some(old(self).cursor),
            event == ButtonEvent::NoEvent ==> *final(self) == *old(self) && sel is None,
            old(self).wf() ==> final(self).wf(),
    {
        match event {
            ButtonEvent::ShortPress => {
                if self.count > 0 {
                    self.cursor = (self.cursor + 1) % self.count;
                }
                None
            },
            ButtonEvent::LongPress => Some(self.cursor),
            ButtonEvent::NoEvent => None,
        }
    }

    /// Move the cursor backward (for the PIR/back button), wrapping.
    pub fn prev(&mut self)
        ensures
            *final(self) == old(self).prev_spec(),
            old(self).wf() ==> final(self).wf(),
    {
        if self.count > 0 {
            if self.cursor == 0 {
                self.cursor = self.count - 1;
            } else {
                self.cursor = self.cursor - 1;
            }
        }
    }

    /// Reset cursor and scroll to the first item.
    pub fn reset(&mut self)
        ensures
            *final(self) == (Menu { cursor: 0, scroll: 0, ..*old(self) }),
            old(self).count <= MAX_MENU_ITEMS ==> final(self).wf(),
    {
        self.cursor = 0;
        self.scroll = 0;
    }

    /// Page up: scroll back by one full page. Returns true if the scroll changed.
    pub fn page_up(&mut self) -> (changed: bool)
        ensures
            changed == (old(self).scroll > 0),
            final(self).scroll == page_up_scroll(old(self).scroll),
            *final(self) == (Menu { scroll: final(self).scroll, ..*old(self) }),
            old(self).wf() ==> final(self).wf(),
    {
        if self.scroll > 0 {
            if self.scroll >= MAX_VISIBLE {
                self.scroll = self.scroll - MAX_VISIBLE;
            } else {
                self.scroll = 0;
            }
            true
        } else {
            false
        }
    }

    /// Page down: scroll forward by one full page when the next page holds
    /// items. Returns true if the scroll changed.
    pub fn page_down(&mut self) -> (changed: bool)
        requires
            old(self).count > MAX_VISIBLE ==> old(self).scroll + MAX_VISIBLE <= u8::MAX,
        ensures
            changed == (old(self).count > MAX_VISIBLE && old(self).scroll + MAX_VISIBLE < old(self).count),
            changed ==> *final(self) == (Menu { scroll: page_down_scroll(old(self).scroll), ..*old(self) }),
            !changed ==> *final(self) == *old(self),
            old(self).wf() ==> final(self).wf(),
    {
        if self.count <= MAX_VISIBLE {
            return false;
        }
        let next = self.scroll + MAX_VISIBLE;
        if next < self.count {
            self.scroll = next;
            true
        } else {
            false
        }
    }

    /// Can page up? (not on the first page)
    pub fn can_page_up(&self) -> (b: bool)
        ensures
            b == (self.scroll > 0),
    {
        self.scroll > 0
    }

    /// Can page down? (there is a next page with items)
    pub fn can_page_down(&self) -> (b: bool)
        requires
            self.count > MAX_VISIBLE ==> self.scroll + MAX_VISIBLE <= u8::MAX,
        ensures
            b == (self.count > MAX_VISIBLE && self.scroll + MAX_VISIBLE < self.count),
    {
        self.count > MAX_VISIBLE && (self.scroll + MAX_VISIBLE) < self.count
    }

    /// Total number of pages (at least one).
    pub fn total_pages(&self) -> (p: u8)
        requires
            self.count == 0 || self.count + MAX_VISIBLE <= u8::MAX,
        ensures
            p == if self.count == 0 { 1 } else { (self.count + MAX_VISIBLE - 1) / (MAX_VISIBLE as int) },
    {
        if self.count == 0 {
            return 1;
        }
        (self.count + MAX_VISIBLE - 1) / MAX_VISIBLE
    }

    /// Current page (0-based).
    pub fn current_page(&self) -> (p: u8)
        ensures
            p == self.scroll / MAX_VISIBLE,
    {
        self.scroll / MAX_VISIBLE
    }

    /// Convert a visible slot index to an absolute item index.
    pub fn visible_to_absolute(&self, visible_idx: u8) -> (a: u8)
        requires
            self.scroll + visible_idx <= u8::MAX,
        ensures
            a == self.scroll + visible_idx,
    {
        self.scroll + visible_idx
    }
}

// ─── Application state machine ─────────────────────────────────────

/// Main application states. The camera-tuning screen and the icon browser
/// belong to particular board and debug builds; both are present here.
#[derive(Debug, Clone, Copy, PartialEq, Eq, Structural)]
pub enum AppState {
    /// Main menu (2x2 grid: Scan QR, Seeds, Tools, Settings)
    MainMenu,
    /// Scan QR: waiting for camera/QR input
    ScanQR,
    /// Seeds sub-menu
    SeedsMenu,
    /// View loaded seed info
    ViewSeed,
    /// Seed backup (show words)
    SeedBackup { word_idx: u8 },
    /// Tools sub-menu
    ToolsMenu,
    /// Seed Tools sub-menu
    SeedToolsMenu,
    /// Import/Export choice (2-button screen)
    ImportExportChoice,
    /// Import sub-menu
    ImportMenu,
    /// Single Signature sub-menu
    SingleSigMenu,
    /// Multisig top-level menu
    MultisigMenu,
    /// Settings sub-menu (Display / Audio / About)
    SettingsMenu,
    /// Display settings (brightness)
    DisplaySettings,
    /// Camera settings (live camera with the tuning overlay)
    CameraSettings,
    /// Audio settings (volume)
    AudioSettings,
    /// SD Card settings (format, info)
    SdCardSettings,
    /// About screen
    About,
    /// Reviewing a transaction (page by page)
    ReviewTx { page: u8 },
    /// Confirm page with OK/Cancel selection
    ConfirmTx,
    /// Sign TX guide
    SignTxGuide,
    /// Sign Message — choose how to enter the message
    SignMsgChoice,
    /// Sign Message — type message via keyboard
    SignMsgType,
    /// Sign Message — pick .TXT file from SD
    SignMsgFile,
    /// Sign Message — preview message + confirm sign
    SignMsgPreview,
    /// Sign Message — scanning QR for hash to sign
    SignMsgScanQr,
    /// Sign Message — preview hash (from QR scan) + confirm sign
    SignMsgHashPreview,
    /// Sign Message — show signature result
    SignMsgResult,
    /// Sign Message — fullscreen QR of attestation
    SignMsgResultQr,
    /// Commit-Reveal — type secret message via keyboard
    CommitRevealType,
    /// Commit-Reveal — preview message and hash, confirm encrypt
    CommitRevealPreview,
    /// Commit-Reveal — show result
    CommitRevealResult,
    /// Commit-Reveal — fullscreen QR of hash + ciphertext
    CommitRevealResultQr,
    /// Decrypt Secret — scanning ciphertext QR
    DecryptSecretScan,
    /// Decrypt Secret — show decrypted plaintext
    DecryptSecretResult,
    /// Decrypt Secret — fullscreen QR of preimage hex
    DecryptSecretResultQr,
    /// Icon browser test screen
    IconBrowser { page: u16 },
    /// Signing in progress
    Signing { input_idx: u8 },
    /// Showing signed QR code
    ShowQR,
    /// Signed KSPT QR frame size choice
    ShowQrFrameChoice,
    /// Signed KSPT density choice
    ShowQrDensityChoice,
    /// Transaction was rejected
    Rejected,
    /// Show address screen
    ShowAddress,
    /// Dice roll entropy collection
    DiceRoll,
    /// Show address as QR code
    ShowAddressQR,
    /// Import seed words one by one
    ImportWord { word_idx: u8, word_count: u8 },
    /// Calculate last word
    CalcLastWord { word_idx: u8, word_count: u8 },
    /// Choose word count (12 or 24) before an action
    ChooseWordCount { action: u8 },
    /// Choose the number of manual dice rolls
    ChooseDiceRollCount { word_count: u8, target: u16 },
    /// Passphrase entry after seed creation/import
    PassphraseEntry,
    /// Export active seed as SeedQR
    ExportSeedQR,
    /// QR Export sub-menu
    QrExportMenu,
    /// xprv export submenu
    XprvExportMenu,
    /// Seed Backup submenu
    SeedBackupMenu,
    /// Watch-Only submenu
    WatchOnlyMenu,
    /// Signing Keys submenu
    SigningKeysMenu,
    /// Export plain BIP39 words as text QR code
    ExportPlainWordsQR,
    /// Export account-level kpub as multi-frame QR
    ExportKpub,
    /// kpub QR frame count choice
    ExportKpubFrameCount,
    /// kpub QR mode choice
    ExportKpubModeChoice,
    /// kpub export popup
    ExportKpubPopup,
    /// kpub scanned popup
    KpubScannedPopup,
    /// Seed list
    SeedList,
    /// Confirm seed deletion
    ConfirmDeleteSeed,
    /// BIP85 index entry
    Bip85Index { word_count: u8 },
    /// BIP85 deriving in progress
    Bip85Deriving,
    /// BIP85 show child mnemonic word-by-word
    Bip85ShowWord { word_idx: u8, word_count: u8 },
    /// Address index picker
    AddrIndexPicker,
    /// Import raw private key via hex keypad
    ImportPrivKey,
    /// Export private key as hex
    ExportPrivKey,
    /// Export private key: derivation index picker
    ExportPrivKeyIndex,
    /// Choose export format: kpub QR or xprv QR
    ExportChoice,
    /// Show xprv as QR code
    ExportXprv,
    /// Show compact seed QR
    ExportCompactSeedQR,
    /// Zoomed grid view of SeedQR
    SeedQrGrid { pan_x: u8, pan_y: u8, compact: bool },
    /// SD backup: security warning
    SdBackupWarning,
    /// SD backup: enter passphrase for encryption
    SdBackupPassphrase,
    /// SD backup: encrypting and writing
    SdBackupWriting,
    /// SD restore: list .KAS files
    SdFileList,
    /// SD restore: enter passphrase for decryption
    SdRestorePassphrase,
    /// SD restore: decrypting and loading
    SdRestoreReading,
    /// SD backup: confirm deletion of selected file
    SdDeleteConfirm,
    /// SD xprv export: enter passphrase
    SdXprvExportPassphrase,
    /// SD xprv import: list XP* files
    SdXprvFileList,
    /// SD xprv import: enter passphrase
    SdXprvImportPassphrase,
    /// Multisig: choose M-of-N
    MultisigChooseMN,
    /// Multisig: pick which seed to use for this key
    MultisigPickSeed { key_idx: u8 },
    /// Multisig: scan/add pubkey
    MultisigAddKey { key_idx: u8 },
    /// Multisig: show the created multisig address
    MultisigShowAddress,
    /// Multisig: show QR of multisig address
    MultisigShowAddressQR,
    /// Multisig: show wallet descriptor text
    MultisigDescriptor,
    /// Steganography: select mode
    StegoModeSelect,
    /// Steganography: processing embed
    StegoEmbed,
    /// Steganography: show result
    StegoResult,
    /// JPEG stego: file picker
    StegoJpegPick,
    /// JPEG stego: choose descriptor input method
    StegoJpegDescChoice,
    /// JPEG stego: pick .TXT file for descriptor
    StegoJpegDescFile,
    /// JPEG stego: enter description text
    StegoJpegDesc,
    /// JPEG stego: preview loaded .TXT content
    StegoJpegDescPreview,
    /// JPEG stego: ask about hiding a recovery hint
    StegoJpegPpAsk,
    /// JPEG stego: info screen explaining recovery hint
    StegoJpegPpInfo,
    /// JPEG stego: enter recovery hint text
    StegoJpegPpEntry,
    /// JPEG stego: confirm overwrite warning
    StegoJpegConfirm,
    /// Stego import: pick JPEG file
    StegoImportPick,
    /// Stego import: choose how to enter descriptor
    StegoImportDescChoice,
    /// Stego import: pick .TXT file for descriptor
    StegoImportDescFile,
    /// Stego import: enter passphrase to decode
    StegoImportPass,
    /// Stego import: hint revealed
    StegoHintReveal,
    /// Stego import: enter passphrase after seeing hint
    StegoHintPassphrase,
    /// Firmware update: verification result screen
    FwUpdateResult,
    /// SD import submenu
    SdImportMenu,
    /// SD KSPT: list .KSP files
    SdKsptFileList,
    /// SD kpub file list
    SdKpubFileList,
    /// ShowQR popup: Save to SD / Back to QR
    ShowQrPopup,
    /// SD KSPT: keyboard for naming the .KSP file
    SdKsptFilename,
    /// SD kpub: keyboard for naming the .TXT file
    SdKpubFilename,
    /// SD seed backup: keyboard for naming the .KAS file
    SdSeedFilename,
    /// SD signature: keyboard for naming the file
    SdSigFilename,
    /// SD xprv export: keyboard for naming the .KAS file
    SdXprvFilename,
    /// SD multisig address: keyboard for naming the .TXT file
    SdMsAddrFilename,
    /// SD multisig address: ask whether to encrypt
    SdMsAddrEncryptAsk,
    /// SD multisig descriptor: keyboard for naming the .TXT file
    SdMsDescFilename,
    /// SD multisig descriptor: ask whether to encrypt
    SdMsDescEncryptAsk,
    /// Multisig address: ask whether to save address to SD
    MultisigSaveAddrAsk,
    /// SD KSPT: ask whether to encrypt the file
    SdKsptEncryptAsk,
    /// SD overwrite warning
    SdOverwriteWarning,
    /// SD kpub: ask whether to encrypt the kpub file
    SdKpubEncryptAsk,
    /// SD KSPT: password keyboard for encrypting .KSP file
    SdKsptEncryptPass,
    /// QR display mode choice: Auto Cycle / Manual
    ShowQrModeChoice,
    /// Covenant backup: keyboard for naming the .COV file
    CovBackupName,
}

/// Result of handling a button event.
#[derive(Debug, Clone, Copy, PartialEq, Eq, Structural)]
pub enum Action {
    /// Nothing happened
    NoAction,
    /// Display needs redraw (cursor moved, state changed, etc)
    Redraw,
    /// Main menu: a demo transaction was selected — the caller must call start_review()
    StartDemoTx,
}

/// Groups AppState variants by their touch handler module.
#[derive(Debug, Clone, Copy, PartialEq, Eq, Structural)]
pub enum HandlerGroup {
    Menu,
    Stego,
    Sd,
    Seed,
    Export,
    Settings,
    Tx,
    /// No touch handler — the state is transient or handled elsewhere
    NoHandler,
}

/// The touch handler responsible for each state.
pub open spec fn handler_group_of(s: AppState) -> HandlerGroup {
    match s {
        AppState::MainMenu | AppState::SeedsMenu | AppState::ToolsMenu | AppState::SeedToolsMenu
        | AppState::ImportExportChoice | AppState::ImportMenu | AppState::SingleSigMenu
        | AppState::MultisigMenu | AppState::DiceRoll | AppState::ChooseWordCount { .. }
        | AppState::ChooseDiceRollCount { .. } | AppState::ShowQR | AppState::ShowQrFrameChoice
        | AppState::ShowQrDensityChoice | AppState::Rejected | AppState::ViewSeed
        | AppState::CovBackupName | AppState::IconBrowser { .. } => HandlerGroup::Menu,
        AppState::StegoModeSelect | AppState::StegoEmbed | AppState::StegoResult
        | AppState::StegoJpegPick | AppState::StegoJpegDescChoice | AppState::StegoJpegDescFile
        | AppState::StegoJpegDesc | AppState::StegoJpegDescPreview | AppState::StegoJpegPpAsk
        | AppState::StegoJpegPpInfo | AppState::StegoJpegPpEntry | AppState::StegoJpegConfirm
        | AppState::StegoImportPick | AppState::StegoImportDescChoice
        | AppState::StegoImportDescFile | AppState::StegoImportPass | AppState::StegoHintReveal
        | AppState::StegoHintPassphrase | AppState::FwUpdateResult => HandlerGroup::Stego,
        AppState::SdBackupWarning | AppState::SdBackupPassphrase | AppState::SdFileList
        | AppState::SdRestorePassphrase | AppState::SdDeleteConfirm
        | AppState::SdXprvExportPassphrase | AppState::SdXprvFileList
        | AppState::SdXprvImportPassphrase | AppState::SdImportMenu | AppState::SdKsptFileList
        | AppState::SdKpubFileList | AppState::ShowQrPopup | AppState::SdKsptFilename
        | AppState::SdKpubFilename | AppState::SdSeedFilename | AppState::SdSigFilename
        | AppState::SdXprvFilename | AppState::SdMsAddrFilename | AppState::SdMsAddrEncryptAsk
        | AppState::SdMsDescFilename | AppState::SdMsDescEncryptAsk | AppState::SdKsptEncryptAsk
        | AppState::SdKsptEncryptPass | AppState::SdOverwriteWarning | AppState::SdKpubEncryptAsk
        | AppState::ShowQrModeChoice => HandlerGroup::Sd,
        AppState::Bip85Index { .. } | AppState::Bip85ShowWord { .. } | AppState::Bip85Deriving
        | AppState::ImportPrivKey | AppState::ImportWord { .. } | AppState::CalcLastWord { .. }
        | AppState::PassphraseEntry | AppState::SeedList | AppState::ConfirmDeleteSeed => HandlerGroup::Seed,
        AppState::SeedBackup { .. } | AppState::ShowAddress | AppState::ShowAddressQR
        | AppState::AddrIndexPicker | AppState::ExportSeedQR | AppState::ExportCompactSeedQR
        | AppState::SeedQrGrid { .. } | AppState::QrExportMenu | AppState::XprvExportMenu
        | AppState::SeedBackupMenu | AppState::WatchOnlyMenu | AppState::SigningKeysMenu
        | AppState::ExportPlainWordsQR | AppState::ExportKpub | AppState::ExportKpubFrameCount
        | AppState::ExportKpubModeChoice | AppState::ExportKpubPopup | AppState::KpubScannedPopup
        | AppState::ExportXprv | AppState::ExportChoice | AppState::ExportPrivKey
        | AppState::ExportPrivKeyIndex => HandlerGroup::Export,
        AppState::SettingsMenu | AppState::DisplaySettings | AppState::AudioSettings
        | AppState::SdCardSettings | AppState::About | AppState::CameraSettings => HandlerGroup::Settings,
        AppState::ScanQR | AppState::ReviewTx { .. } | AppState::ConfirmTx | AppState::SignTxGuide
        | AppState::MultisigChooseMN | AppState::MultisigPickSeed { .. }
        | AppState::MultisigAddKey { .. } | AppState::MultisigShowAddress
        | AppState::MultisigShowAddressQR | AppState::MultisigSaveAddrAsk
        | AppState::MultisigDescriptor | AppState::SignMsgChoice | AppState::SignMsgType
        | AppState::SignMsgFile | AppState::SignMsgPreview | AppState::SignMsgScanQr
        | AppState::SignMsgHashPreview | AppState::SignMsgResult | AppState::SignMsgResultQr
        | AppState::CommitRevealType | AppState::CommitRevealPreview
        | AppState::CommitRevealResult | AppState::CommitRevealResultQr
        | AppState::DecryptSecretScan | AppState::DecryptSecretResult
        | AppState::DecryptSecretResultQr => HandlerGroup::Tx,
        AppState::Signing { .. } | AppState::SdBackupWriting | AppState::SdRestoreReading => HandlerGroup::NoHandler,
    }
}

impl AppState {
    /// Map this AppState to its responsible handler module.
    pub fn handler_group(&self) -> (g: HandlerGroup)
        ensures
            g == handler_group_of(*self),
    {
        match self {
            AppState::MainMenu | AppState::SeedsMenu | AppState::ToolsMenu | AppState::SeedToolsMenu
            | AppState::ImportExportChoice | AppState::ImportMenu | AppState::SingleSigMenu
            | AppState::MultisigMenu | AppState::DiceRoll | AppState::ChooseWordCount { .. }
            | AppState::ChooseDiceRollCount { .. } | AppState::ShowQR | AppState::ShowQrFrameChoice
            | AppState::ShowQrDensityChoice | AppState::Rejected | AppState::ViewSeed
            | AppState::CovBackupName | AppState::IconBrowser { .. } => HandlerGroup::Menu,
            AppState::StegoModeSelect | AppState::StegoEmbed | AppState::StegoResult
            | AppState::StegoJpegPick | AppState::StegoJpegDescChoice | AppState::StegoJpegDescFile
            | AppState::StegoJpegDesc | AppState::StegoJpegDescPreview | AppState::StegoJpegPpAsk
            | AppState::StegoJpegPpInfo | AppState::StegoJpegPpEntry | AppState::StegoJpegConfirm
            | AppState::StegoImportPick | AppState::StegoImportDescChoice
            | AppState::StegoImportDescFile | AppState::StegoImportPass | AppState::StegoHintReveal
            | AppState::StegoHintPassphrase | AppState::FwUpdateResult => HandlerGroup::Stego,
            AppState::SdBackupWarning | AppState::SdBackupPassphrase | AppState::SdFileList
            | AppState::SdRestorePassphrase | AppState::SdDeleteConfirm
            | AppState::SdXprvExportPassphrase | AppState::SdXprvFileList
            | AppState::SdXprvImportPassphrase | AppState::SdImportMenu | AppState::SdKsptFileList
            | AppState::SdKpubFileList | AppState::ShowQrPopup | AppState::SdKsptFilename
            | AppState::SdKpubFilename | AppState::SdSeedFilename | AppState::SdSigFilename
            | AppState::SdXprvFilename | AppState::SdMsAddrFilename | AppState::SdMsAddrEncryptAsk
            | AppState::SdMsDescFilename | AppState::SdMsDescEncryptAsk | AppState::SdKsptEncryptAsk
            | AppState::SdKsptEncryptPass | AppState::SdOverwriteWarning | AppState::SdKpubEncryptAsk
            | AppState::ShowQrModeChoice => HandlerGroup::Sd,
            AppState::Bip85Index { .. } | AppState::Bip85ShowWord { .. } | AppState::Bip85Deriving
            | AppState::ImportPrivKey | AppState::ImportWord { .. } | AppState::CalcLastWord { .. }
            | AppState::PassphraseEntry | AppState::SeedList | AppState::ConfirmDeleteSeed => HandlerGroup::Seed,
            AppState::SeedBackup { .. } | AppState::ShowAddress | AppState::ShowAddressQR
            | AppState::AddrIndexPicker | AppState::ExportSeedQR | AppState::ExportCompactSeedQR
            | AppState::SeedQrGrid { .. } | AppState::QrExportMenu | AppState::XprvExportMenu
            | AppState::SeedBackupMenu | AppState::WatchOnlyMenu | AppState::SigningKeysMenu
            | AppState::ExportPlainWordsQR | AppState::ExportKpub | AppState::ExportKpubFrameCount
            | AppState::ExportKpubModeChoice | AppState::ExportKpubPopup | AppState::KpubScannedPopup
            | AppState::ExportXprv | AppState::ExportChoice | AppState::ExportPrivKey
            | AppState::ExportPrivKeyIndex => HandlerGroup::Export,
            AppState::SettingsMenu | AppState::DisplaySettings | AppState::AudioSettings
            | AppState::SdCardSettings | AppState::About | AppState::CameraSettings => HandlerGroup::Settings,
            AppState::ScanQR | AppState::ReviewTx { .. } | AppState::ConfirmTx | AppState::SignTxGuide
            | AppState::MultisigChooseMN | AppState::MultisigPickSeed { .. }
            | AppState::MultisigAddKey { .. } | AppState::MultisigShowAddress
            | AppState::MultisigShowAddressQR | AppState::MultisigSaveAddrAsk
            | AppState::MultisigDescriptor | AppState::SignMsgChoice | AppState::SignMsgType
            | AppState::SignMsgFile | AppState::SignMsgPreview | AppState::SignMsgScanQr
            | AppState::SignMsgHashPreview | AppState::SignMsgResult | AppState::SignMsgResultQr
            | AppState::CommitRevealType | AppState::CommitRevealPreview
            | AppState::CommitRevealResult | AppState::CommitRevealResultQr
            | AppState::DecryptSecretScan | AppState::DecryptSecretResult
            | AppState::DecryptSecretResultQr => HandlerGroup::Tx,
            AppState::Signing { .. } | AppState::SdBackupWriting | AppState::SdRestoreReading => HandlerGroup::NoHandler,
        }
    }
}

/// The main menu: Scan QR, Seeds, Tools, Settings; cursor on the first item.
pub open spec fn is_main_menu(m: Menu) -> bool {
    &&& m.count == 4
    &&& m.cursor == 0
    &&& m.scroll == 0
    &&& m.items@[0] == "Scan QR"
    &&& m.items@[1] == "Seeds"
    &&& m.items@[2] == "Tools"
    &&& m.items@[3] == "Settings"
    &&& forall|i: int| 4 <= i < MAX_MENU_ITEMS ==> m.items@[i] == ""
}

/// The transaction confirm menu: Confirm, Cancel; cursor on Confirm.
pub open spec fn is_confirm_menu(m: Menu) -> bool {
    &&& m.count == 2
    &&& m.cursor == 0
    &&& m.scroll == 0
    &&& m.items@[0] == "Confirm"
    &&& m.items@[1] == "Cancel"
    &&& forall|i: int| 2 <= i < MAX_MENU_ITEMS ==> m.items@[i] == ""
}

/// Sub-screens on which any button press returns to the main menu.
pub open spec fn returns_home_on_press(s: AppState) -> bool {
    match s {
        AppState::ShowQR | AppState::ShowQrFrameChoice | AppState::ShowQrDensityChoice
        | AppState::Rejected | AppState::About | AppState::ShowAddress | AppState::ShowAddressQR
        | AppState::ScanQR | AppState::ViewSeed | AppState::SeedBackup { .. } | AppState::DiceRoll
        | AppState::ImportWord { .. } | AppState::CalcLastWord { .. }
        | AppState::ChooseWordCount { .. } | AppState::ChooseDiceRollCount { .. }
        | AppState::PassphraseEntry | AppState::ExportSeedQR | AppState::ExportKpub
        | AppState::ExportKpubModeChoice | AppState::ExportKpubFrameCount
        | AppState::ExportKpubPopup | AppState::KpubScannedPopup | AppState::SeedList
        | AppState::DisplaySettings | AppState::AudioSettings | AppState::SdCardSettings
        | AppState::SignTxGuide | AppState::SignMsgChoice | AppState::SignMsgType
        | AppState::SignMsgFile | AppState::SignMsgPreview | AppState::SignMsgScanQr
        | AppState::SignMsgHashPreview | AppState::SignMsgResult | AppState::SignMsgResultQr
        | AppState::CommitRevealType | AppState::CommitRevealPreview
        | AppState::CommitRevealResult | AppState::CommitRevealResultQr
        | AppState::DecryptSecretScan | AppState::DecryptSecretResult
        | AppState::DecryptSecretResultQr | AppState::QrExportMenu | AppState::XprvExportMenu
        | AppState::SeedBackupMenu | AppState::WatchOnlyMenu | AppState::SigningKeysMenu
        | AppState::ExportPlainWordsQR => true,
        _ => false,
    }
}

/// Wallet application controller.
pub struct WalletApp {
    pub state: AppState,
    /// Menu for the current screen
    pub menu: Menu,
    /// Total review pages (summary + outputs, not including confirm)
    pub review_pages: u8,
    /// Total inputs to sign
    pub total_inputs: u8,
}

/// The state after the BOOT button reports `event` in `app`.
pub open spec fn boot_next_state(app: WalletApp, event: ButtonEvent) -> AppState {
    if event == ButtonEvent::NoEvent {
        app.state
    } else {
        match app.state {
            AppState::MainMenu => {
                if event == ButtonEvent::LongPress {
                    if app.menu.cursor == 0 {
                        AppState::ScanQR
                    } else if app.menu.cursor == 1 {
                        AppState::SeedsMenu
                    } else if app.menu.cursor == 2 {
                        AppState::ToolsMenu
                    } else if app.menu.cursor == 3 {
                        AppState::SettingsMenu
                    } else {
                        AppState::MainMenu
                    }
                } else {
                    AppState::MainMenu
                }
            },
            AppState::ReviewTx { page } => {
                if page + 1 < app.review_pages {
                    AppState::ReviewTx { page: (page + 1) as u8 }
                } else {
                    AppState::ConfirmTx
                }
            },
            AppState::ConfirmTx => {
                if event == ButtonEvent::LongPress && app.menu.cursor == 0 {
                    AppState::Signing { input_idx: 0 }
                } else if event == ButtonEvent::LongPress && app.menu.cursor == 1 {
                    AppState::Rejected
                } else {
                    AppState::ConfirmTx
                }
            },
            AppState::ConfirmDeleteSeed => AppState::SeedList,
            AppState::CameraSettings => AppState::SettingsMenu,
            s => if returns_home_on_press(s) { AppState::MainMenu } else { s },
        }
    }
}

/// What the caller is told after the BOOT button reports `event` in `state`.
pub open spec fn boot_action(state: AppState, event: ButtonEvent) -> Action {
    if event == ButtonEvent::NoEvent {
        Action::NoAction
    } else {
        match state {
            AppState::MainMenu | AppState::ReviewTx { .. } | AppState::ConfirmTx
            | AppState::ConfirmDeleteSeed | AppState::CameraSettings => Action::Redraw,
            s => if returns_home_on_press(s) { Action::Redraw } else { Action::NoAction },
        }
    }
}

/// The menu after the BOOT button reports `event` in `app` is `m`.
pub open spec fn boot_next_menu(app: WalletApp, event: ButtonEvent, m: Menu) -> bool {
    if event == ButtonEvent::NoEvent {
        m == app.menu
    } else {
        match app.state {
            AppState::MainMenu | AppState::ConfirmTx => {
                if event == ButtonEvent::ShortPress { m == app.menu.next_spec() } else { m == app.menu }
            },
            AppState::ReviewTx { page } => {
                if page + 1 < app.review_pages { m == app.menu } else { is_confirm_menu(m) }
            },
            s => if returns_home_on_press(s) { is_main_menu(m) } else { m == app.menu },
        }
    }
}

/// The state after one call of `advance_signing` with `total_inputs` inputs.
pub open spec fn signing_next(state: AppState, total_inputs: u8) -> AppState {
    match state {
        AppState::Signing { input_idx } => {
            if input_idx + 1 >= total_inputs {
                AppState::ShowQrFrameChoice
            } else {
                AppState::Signing { input_idx: (input_idx + 1) as u8 }
            }
        },
        s => s,
    }
}

fn main_menu() -> (m: Menu)
    ensures
        is_main_menu(m),
{
    let labels: [&'static str; 4] = ["Scan QR", "Seeds", "Tools", "Settings"];
    Menu::from_items(labels.as_slice())
}

fn confirm_menu() -> (m: Menu)
    ensures
        is_confirm_menu(m),
{
    let labels: [&'static str; 2] = ["Confirm", "Cancel"];
    Menu::from_items(labels.as_slice())
}

impl WalletApp {
    /// Create a new WalletApp in the MainMenu state.
    pub fn new() -> (app: Self)
        ensures
            app.state == AppState::MainMenu,
            is_main_menu(app.menu),
            app.review_pages == 0,
            app.total_inputs == 0,
    {
        WalletApp { state: AppState::MainMenu, menu: main_menu(), review_pages: 0, total_inputs: 0 }
    }

    /// Handle the BOOT button (short = move cursor, long = select).
    /// Returns an Action telling the caller what happened.
    ///
    /// While reviewing a transaction both presses advance exactly one page,
    /// so the confirm screen is only reachable by paging past every output.
    pub fn handle_boot(&mut self, event: ButtonEvent) -> (action: Action)
        requires
            event == ButtonEvent::ShortPress && (old(self).state == AppState::MainMenu
                || old(self).state == AppState::ConfirmTx) && old(self).menu.count > 0
                ==> old(self).menu.cursor < u8::MAX,
            event != ButtonEvent::NoEvent && old(self).state is ReviewTx
                ==> old(self).state->ReviewTx_page < u8::MAX,
        ensures
            final(self).state == boot_next_state(*old(self), event),
            action == boot_action(old(self).state, event),
            boot_next_menu(*old(self), event, final(self).menu),
            final(self).review_pages == old(self).review_pages,
            final(self).total_inputs == old(self).total_inputs,
    {
        if event == ButtonEvent::NoEvent {
            return Action::NoAction;
        }
        match self.state {
            AppState::MainMenu => {
                if let Some(selected) = self.menu.handle(event) {
                    if selected == 0 {
                        self.state = AppState::ScanQR;
                        return Action::Redraw;
                    } else if selected == 1 {
                        self.state = AppState::SeedsMenu;
                        return Action::Redraw;
                    } else if selected == 2 {
                        self.state = AppState::ToolsMenu;
                        return Action::Redraw;
                    } else if selected == 3 {
                        self.state = AppState::SettingsMenu;
                        return Action::Redraw;
                    }
                }
                Action::Redraw
            },
            AppState::ReviewTx { page } => {
                let next = page + 1;
                if next < self.review_pages {
                    self.state = AppState::ReviewTx { page: next };
                } else {
                    self.menu = confirm_menu();
                    self.state = AppState::ConfirmTx;
                }
                Action::Redraw
            },
            AppState::ConfirmTx => {
                if let Some(selected) = self.menu.handle(event) {
                    if selected == 0 {
                        self.state = AppState::Signing { input_idx: 0 };
                    } else if selected == 1 {
                        self.state = AppState::Rejected;
                    }
                }
                Action::Redraw
            },
            AppState::Signing { .. } => Action::NoAction,
            AppState::ConfirmDeleteSeed => {
                self.state = AppState::SeedList;
                Action::Redraw
            },
            AppState::CameraSettings => {
                self.state = AppState::SettingsMenu;
                Action::Redraw
            },
            AppState::ShowQR | AppState::ShowQrFrameChoice | AppState::ShowQrDensityChoice
            | AppState::Rejected | AppState::About | AppState::ShowAddress | AppState::ShowAddressQR
            | AppState::ScanQR | AppState::ViewSeed | AppState::SeedBackup { .. } | AppState::DiceRoll
            | AppState::ImportWord { .. } | AppState::CalcLastWord { .. }
            | AppState::ChooseWordCount { .. } | AppState::ChooseDiceRollCount { .. }
            | AppState::PassphraseEntry | AppState::ExportSeedQR | AppState::ExportKpub
            | AppState::ExportKpubModeChoice | AppState::ExportKpubFrameCount
            | AppState::ExportKpubPopup | AppState::KpubScannedPopup | AppState::SeedList
            | AppState::DisplaySettings | AppState::AudioSettings | AppState::SdCardSettings
            | AppState::SignTxGuide | AppState::SignMsgChoice | AppState::SignMsgType
            | AppState::SignMsgFile | AppState::SignMsgPreview | AppState::SignMsgScanQr
            | AppState::SignMsgHashPreview | AppState::SignMsgResult | AppState::SignMsgResultQr
            | AppState::CommitRevealType | AppState::CommitRevealPreview
            | AppState::CommitRevealResult | AppState::CommitRevealResultQr
            | AppState::DecryptSecretScan | AppState::DecryptSecretResult
            | AppState::DecryptSecretResultQr | AppState::QrExportMenu | AppState::XprvExportMenu
            | AppState::SeedBackupMenu | AppState::WatchOnlyMenu | AppState::SigningKeysMenu
            | AppState::ExportPlainWordsQR => {
                self.go_main_menu();
                Action::Redraw
            },
            // sub-menus driven by touch only
            _ => Action::NoAction,
        }
    }

    /// Start reviewing a transaction: one summary page plus one page per output.
    pub fn start_review(&mut self, num_outputs: u8, num_inputs: u8)
        requires
            num_outputs < u8::MAX,
        ensures
            final(self).review_pages == 1 + num_outputs,
            final(self).total_inputs == num_inputs,
            final(self).state == (AppState::ReviewTx { page: 0 }),
            final(self).menu == old(self).menu,
    {
        self.review_pages = 1 + num_outputs;
        self.total_inputs = num_inputs;
        self.state = AppState::ReviewTx { page: 0 };
    }

    /// Advance signing progress by one input. Returns false when not signing.
    pub fn advance_signing(&mut self) -> (advanced: bool)
        requires
            old(self).state is Signing ==> old(self).state->input_idx < u8::MAX,
        ensures
            advanced == old(self).state is Signing,
            final(self).state == signing_next(old(self).state, old(self).total_inputs),
            final(self).menu == old(self).menu,
            final(self).review_pages == old(self).review_pages,
            final(self).total_inputs == old(self).total_inputs,
    {
        if let AppState::Signing { input_idx } = self.state {
            let next = input_idx + 1;
            if next >= self.total_inputs {
                self.state = AppState::ShowQrFrameChoice;
                true
            } else {
                self.state = AppState::Signing { input_idx: next };
                true
            }
        } else {
            false
        }
    }

    /// Return to the main menu.
    pub fn go_main_menu(&mut self)
        ensures
            final(self).state == AppState::MainMenu,
            is_main_menu(final(self).menu),
            final(self).review_pages == old(self).review_pages,
            final(self).total_inputs == old(self).total_inputs,
    {
        self.menu = main_menu();
        self.state = AppState::MainMenu;
    }
}

// ─── Self-tests ────────────────────────────────────────────────────

/// Run the input subsystem self-tests. Returns (passed, total); every test passes.
pub fn run_tests() -> (r: (u32, u32))
    ensures
        r == (5u32, 5u32),
{
    let mut passed = 0u32;
    let total = 5u32;

    // Test 1: BOOT short press
    {
        let mut btn = Button::new();
        let _ = btn.update(false, 100);
        let _ = btn.update(true, 100);
        let _ = btn.update(true, 100);
        let e = btn.update(false, 20);
        if e == ButtonEvent::ShortPress {
            passed = passed + 1;
        }
    }

    // Test 2: BOOT long press
    {
        let mut btn = Button::new();
        let _ = btn.update(true, 100);
        let _ = btn.update(true, 400);
        let _ = btn.update(true, 400);
        let e = btn.update(false, 20);
        if e == ButtonEvent::LongPress {
            passed = passed + 1;
        }
    }

    // Test 3: PIR short noise rejected
    {
        let mut btn = Button::new_pir();
        let _ = btn.update(true, 50);
        let _ = btn.update(true, 50);
        let e = btn.update(false, 20);
        if e == ButtonEvent::NoEvent {
            passed = passed + 1;
        }
    }

    // Test 4: Menu navigation — short = move, long = select
    {
        let labels: [&'static str; 3] = ["Alpha", "Beta", "Gamma"];
        let mut menu = Menu::from_items(labels.as_slice());
        assert(menu.count == 3);
        let r1 = menu.handle(ButtonEvent::ShortPress);
        let ok1 = r1.is_none() && menu.cursor == 1;
        let r2 = menu.handle(ButtonEvent::ShortPress);
        let ok2 = r2.is_none() && menu.cursor == 2;
        let r3 = menu.handle(ButtonEvent::ShortPress);
        let ok3 = r3.is_none() && menu.cursor == 0;
        let r4 = menu.handle(ButtonEvent::LongPress);
        let ok4 = r4 == Some(0u8);
        if ok1 && ok2 && ok3 && ok4 {
            passed = passed + 1;
        }
    }

    // Test 5: App flow — main menu → ScanQR, then review → confirm → sign → QR → menu
    {
        let mut app = WalletApp::new();
        let action = app.handle_boot(ButtonEvent::LongPress);
        let ok0 = app.state == AppState::ScanQR && action == Action::Redraw;

        app.go_main_menu();
        app.start_review(2, 1);
        let ok1 = app.state == (AppState::ReviewTx { page: 0 });

        app.handle_boot(ButtonEvent::ShortPress);
        app.handle_boot(ButtonEvent::ShortPress);
        let ok2 = app.state == (AppState::ReviewTx { page: 2 });

        app.handle_boot(ButtonEvent::ShortPress);
        let ok3 = app.state == AppState::ConfirmTx;

        app.handle_boot(ButtonEvent::LongPress);
        let ok4 = matches!(app.state, AppState::Signing { .. });

        app.advance_signing();
        let ok5 = app.state == AppState::ShowQrFrameChoice;

        app.handle_boot(ButtonEvent::ShortPress);
        let ok6 = app.state == AppState::MainMenu;

        if ok0 && ok1 && ok2 && ok3 && ok4 && ok5 && ok6 {
            passed = passed + 1;
        }
    }

    (passed, total)
}

// ─── Laws ──────────────────────────────────────────────────────────

/// The menu after `k` short presses.
pub open spec fn next_n(m: Menu, k: nat) -> Menu
    decreases k,
{
    if k == 0 { m } else { next_n(m, (k - 1) as nat).next_spec() }
}

/// Moving the cursor back undoes a short press, and a short press undoes
/// moving back, on any consistent menu.
pub proof fn lemma_prev_undoes_next(m: Menu)
    requires
        m.wf(),
    ensures
        m.next_spec().prev_spec() == m,
        m.prev_spec().next_spec() == m,
{
    if m.count > 0 {
        let c = m.count as int;
        if m.cursor + 1 < c {
            vstd::arithmetic::div_mod::lemma_small_mod((m.cursor + 1) as nat, c as nat);
        } else {
            vstd::arithmetic::div_mod::lemma_mod_self_0(c);
        }
        if m.cursor == 0 {
            vstd::arithmetic::div_mod::lemma_mod_self_0(c);
        } else {
            vstd::arithmetic::div_mod::lemma_small_mod(m.cursor as nat, c as nat);
        }
        let a = m.next_spec().prev_spec();
        assert(a.cursor == m.cursor);
        let b = m.prev_spec().next_spec();
        assert(b.cursor == m.cursor);
    }
}

/// `k` short presses move the cursor `k` items forward, modulo the item count;
/// in particular `count` short presses bring the cursor back where it was.
pub proof fn lemma_short_presses_cycle(m: Menu, k: nat)
    requires
        m.wf(),
        m.count > 0,
    ensures
        next_n(m, k) == (Menu { cursor: ((m.cursor + k) % (m.count as int)) as u8, ..m }),
        next_n(m, m.count as nat) == m,
{
    lemma_next_n_cursor(m, k);
    lemma_next_n_cursor(m, m.count as nat);
    let c = m.count as int;
    assert((m.cursor + c) % c == m.cursor as int) by (nonlinear_arith)
        requires 0 <= m.cursor < c;
}

proof fn lemma_next_n_cursor(m: Menu, k: nat)
    requires
        m.wf(),
        m.count > 0,
    ensures
        next_n(m, k) == (Menu { cursor: ((m.cursor + k) % (m.count as int)) as u8, ..m }),
    decreases k,
{
    let c = m.count as int;
    if k > 0 {
        lemma_next_n_cursor(m, (k - 1) as nat);
        let prev = (m.cursor + (k - 1)) % c;
        assert(0 <= prev < c && ((prev + 1) % c) == (m.cursor + k) % c) by (nonlinear_arith)
            requires c > 0, prev == (m.cursor + (k - 1)) % c;
    } else {
        vstd::arithmetic::div_mod::lemma_small_mod(m.cursor as nat, c as nat);
    }
}

/// Paging down and then up returns to the page the menu was on.
pub proof fn lemma_page_down_then_up(m: Menu)
    requires
        m.wf(),
        m.count > MAX_VISIBLE,
        m.scroll + MAX_VISIBLE < m.count,
    ensures
        page_up_scroll(page_down_scroll(m.scroll)) == m.scroll,
{
}

/// On a consistent menu the current page is one of its pages.
pub proof fn lemma_current_page_in_range(m: Menu)
    requires
        m.wf(),
    ensures
        m.scroll / MAX_VISIBLE < (if m.count == 0 { 1 } else { (m.count + MAX_VISIBLE - 1) / (MAX_VISIBLE as int) }),
{
}

/// The state after `k` calls of `advance_signing`.
pub open spec fn signing_after(state: AppState, total_inputs: u8, k: nat) -> AppState
    decreases k,
{
    if k == 0 { state } else { signing_next(signing_after(state, total_inputs, (k - 1) as nat), total_inputs) }
}

/// Signing visits the inputs in order, one per step: after `k` steps
/// (`k` below the input count) it is on input `k`, and after as many steps
/// as there are inputs (at least one) it shows the frame-size choice.
pub proof fn lemma_signing_visits_each_input(total_inputs: u8, k: nat)
    requires
        k < total_inputs,
    ensures
        signing_after(AppState::Signing { input_idx: 0 }, total_inputs, k) == (AppState::Signing { input_idx: k as u8 }),
        signing_after(AppState::Signing { input_idx: 0 }, total_inputs, total_inputs as nat) == AppState::ShowQrFrameChoice,
    decreases k,
{
    if k > 0 {
        lemma_signing_visits_each_input(total_inputs, (k - 1) as nat);
    }
    lemma_signing_reaches_end(total_inputs, (total_inputs - 1) as nat);
}

proof fn lemma_signing_reaches_end(total_inputs: u8, k: nat)
    requires
        k < total_inputs,
    ensures
        forall|j: nat| j <= k ==> signing_after(AppState::Signing { input_idx: 0 }, total_inputs, j) == (AppState::Signing { input_idx: j as u8 }),
        signing_after(AppState::Signing { input_idx: 0 }, total_inputs, (k + 1) as nat)
            == signing_next(AppState::Signing { input_idx: k as u8 }, total_inputs),
    decreases k,
{
    if k > 0 {
        lemma_signing_reaches_end(total_inputs, (k - 1) as nat);
    }
    assert(signing_after(AppState::Signing { input_idx: 0 }, total_inputs, (k + 1) as nat)
        == signing_next(signing_after(AppState::Signing { input_idx: 0 }, total_inputs, k), total_inputs));
    assert forall|j: nat| j <= k implies signing_after(AppState::Signing { input_idx: 0 }, total_inputs, j) == (AppState::Signing { input_idx: j as u8 }) by {
        if j < k {
        } else if j > 0 {
            assert(signing_after(AppState::Signing { input_idx: 0 }, total_inputs, j)
                == signing_next(signing_after(AppState::Signing { input_idx: 0 }, total_inputs, (j - 1) as nat), total_inputs));
        }
    }
}

/// Step `i` of a recorded run of BOOT events: the next state is the one
/// `handle_boot` gives, the page count is kept, and the confirm screen has
/// not been reached yet.
pub open spec fn review_step(apps: Seq<WalletApp>, events: Seq<ButtonEvent>, i: int) -> bool {
    &&& apps[i + 1].state == boot_next_state(apps[i], events[i])
    &&& apps[i + 1].review_pages == apps[i].review_pages
    &&& apps[i].state != AppState::ConfirmTx
}

/// A transaction can only be confirmed after every review page was shown:
/// along any run of BOOT events that starts on the first review page and first
/// reaches the confirm screen at its end, each page below the page count was
/// displayed at some point.
pub proof fn lemma_confirm_requires_all_pages(apps: Seq<WalletApp>, events: Seq<ButtonEvent>, p: int)
    requires
        apps.len() == events.len() + 1,
        apps[0].state == (AppState::ReviewTx { page: 0 }),
        forall|i: int| 0 <= i < events.len() ==> #[trigger] review_step(apps, events, i),
        apps.last().state == AppState::ConfirmTx,
        0 <= p < apps[0].review_pages,
    ensures
        exists|i: int| 0 <= i < apps.len() && #[trigger] apps[i].state == (AppState::ReviewTx { page: p as u8 }),
{
    lemma_review_prefix(apps, events, events.len() - 1);
    let last = events.len() - 1;
    let page = apps[last].state->ReviewTx_page;
    assert(review_step(apps, events, last));
    assert(page + 1 >= apps[0].review_pages);
    assert(p <= page);
    assert(page_shown(apps, last, p));
    let w = choose|i: int| 0 <= i <= last && #[trigger] apps[i].state == (AppState::ReviewTx { page: p as u8 });
    assert(apps[w].state == (AppState::ReviewTx { page: p as u8 }));
}

/// Step `i` of a recorded run of presses of the BOOT button from a review:
/// a real press (short or long), the state and menu that `handle_boot`
/// gives, the page count kept.
pub open spec fn press_step(apps: Seq<WalletApp>, events: Seq<ButtonEvent>, i: int) -> bool {
    &&& events[i] != ButtonEvent::NoEvent
    &&& apps[i + 1].state == boot_next_state(apps[i], events[i])
    &&& boot_next_menu(apps[i], events[i], apps[i + 1].menu)
    &&& apps[i + 1].review_pages == apps[i].review_pages
}

/// Paging through a review: from the first page, each press (short or long)
/// shows the next page, and the press after the last page brings up the
/// confirm screen with its menu. So with `review_pages` pages, after `j`
/// presses page `j` is on screen while `j` is below the page count, and the
/// confirm screen comes exactly after as many presses as there are pages.
pub proof fn lemma_review_walk(apps: Seq<WalletApp>, events: Seq<ButtonEvent>)
    requires
        apps.len() == events.len() + 1,
        apps[0].state == (AppState::ReviewTx { page: 0 }),
        1 <= apps[0].review_pages,
        forall|i: int| 0 <= i < events.len() && i < apps[0].review_pages ==> #[trigger] press_step(apps, events, i),
    ensures
        forall|j: int| 0 <= j < apps.len() && j < apps[0].review_pages
            ==> #[trigger] apps[j].state == (AppState::ReviewTx { page: j as u8 }),
        events.len() >= apps[0].review_pages ==> apps[apps[0].review_pages as int].state == AppState::ConfirmTx
            && is_confirm_menu(apps[apps[0].review_pages as int].menu),
    decreases events.len(),
{
    if events.len() > 0 {
        let k = events.len() - 1;
        let pa = apps.take(apps.len() - 1);
        let pe = events.take(k);
        assert forall|i: int| 0 <= i < pe.len() && i < pa[0].review_pages implies #[trigger] press_step(pa, pe, i) by {
            assert(press_step(apps, events, i));
            assert(pa[i] == apps[i] && pa[i + 1] == apps[i + 1] && pe[i] == events[i]);
        }
        lemma_review_walk(pa, pe);
        let pages = apps[0].review_pages;
        assert forall|j: int| 0 <= j < apps.len() && j < pages
            implies #[trigger] apps[j].state == (AppState::ReviewTx { page: j as u8 }) by {
            if j < apps.len() - 1 {
                assert(pa[j] == apps[j]);
            } else {
                assert(press_step(apps, events, j - 1));
                assert(pa[j - 1] == apps[j - 1]);
                lemma_pages_kept(apps, events, j - 1);
            }
        }
        if events.len() >= pages {
            if events.len() > pages {
                assert(pa[pages as int] == apps[pages as int]);
            } else {
                let q = pages - 1;
                assert(press_step(apps, events, q));
                assert(pa[q] == apps[q]);
                assert(apps[q].state == (AppState::ReviewTx { page: q as u8 }));
                lemma_pages_kept(apps, events, q);
            }
        }
    }
}

/// Along such a run the page count stays that of the first point.
proof fn lemma_pages_kept(apps: Seq<WalletApp>, events: Seq<ButtonEvent>, n: int)
    requires
        apps.len() == events.len() + 1,
        0 <= n < apps.len(),
        n <= apps[0].review_pages,
        forall|i: int| 0 <= i < events.len() && i < apps[0].review_pages ==> #[trigger] press_step(apps, events, i),
    ensures
        apps[n].review_pages == apps[0].review_pages,
    decreases n,
{
    if n > 0 {
        lemma_pages_kept(apps, events, n - 1);
        assert(press_step(apps, events, n - 1));
    }
}

/// Review page `q` was displayed at one of the first `n + 1` points of the run.
pub open spec fn page_shown(apps: Seq<WalletApp>, n: int, q: int) -> bool {
    exists|i: int| 0 <= i <= n && #[trigger] apps[i].state == (AppState::ReviewTx { page: q as u8 })
}

proof fn lemma_review_prefix(apps: Seq<WalletApp>, events: Seq<ButtonEvent>, n: int)
    requires
        apps.len() == events.len() + 1,
        apps[0].state == (AppState::ReviewTx { page: 0 }),
        forall|i: int| 0 <= i < events.len() ==> #[trigger] review_step(apps, events, i),
        0 <= n < events.len(),
    ensures
        apps[n].state is ReviewTx,
        apps[n].review_pages == apps[0].review_pages,
        forall|q: int| 0 <= q <= apps[n].state->ReviewTx_page ==> #[trigger] page_shown(apps, n, q),
    decreases n,
{
    if n > 0 {
        lemma_review_prefix(apps, events, n - 1);
        assert(review_step(apps, events, n - 1));
        assert(review_step(apps, events, n));
        let prev = apps[n - 1].state->ReviewTx_page;
        assert forall|q: int| 0 <= q <= apps[n].state->ReviewTx_page implies #[trigger] page_shown(apps, n, q) by {
            if q <= prev {
                assert(page_shown(apps, n - 1, q));
                let w = choose|i: int| 0 <= i <= n - 1 && #[trigger] apps[i].state == (AppState::ReviewTx { page: q as u8 });
                assert(apps[w].state == (AppState::ReviewTx { page: q as u8 }));
            } else {
                assert(apps[n].state == (AppState::ReviewTx { page: q as u8 }));
            }
        }
    } else {
        assert forall|q: int| 0 <= q <= apps[n].state->ReviewTx_page implies #[trigger] page_shown(apps, n, q) by {
            assert(apps[0].state == (AppState::ReviewTx { page: q as u8 }));
        }
    }
}

} // verus!
