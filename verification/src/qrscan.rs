//! QR scanning with the camera: decoding a greyscale frame with `rqrr`,
//! routing each decoded code, and the touches that the scanning screens
//! answer at once instead of waiting for the next frame.

use vstd::prelude::*;
use crate::input::AppState;
use crate::qrframe::{is_multiframe, is_multiframe_spec};
use crate::qrpayload::{QrPayloadKind, classify_qr_payload, qr_payload_kind, parse_sign_hash, sign_hash_spec,
    normalize_scanned_address, normalized_address};
use crate::screens::{UiState, CameraTune, CAM_PARAMS, in_span, within, goto, went_home};
use crate::settings_touch::Board;

verus! {

// ─── Decoding ──────────────────────────────────────────────────────

/// The codes `rqrr` finds in a `w`×`h` greyscale image (row by row, one
/// byte per pixel): one entry per grid it detects, with the QR version and
/// the decoded bytes, or `None` where the grid did not decode.
pub uninterp spec fn qr_scan_spec(gray: Seq<u8>, w: usize, h: usize) -> Seq<Option<(u8, Seq<u8>)>>;

/// The decoded codes as values.
pub open spec fn decoded_view(r: Seq<Option<(u8, Vec<u8>)>>) -> Seq<Option<(u8, Seq<u8>)>> {
    r.map_values(|o: Option<(u8, Vec<u8>)>| match o {
        Some((v, d)) => Some((v, d@)),
        None => None,
    })
}

/// The pixel at (`x`, `y`) of a `w`-wide image, or black outside the buffer.
pub fn grey_at(gray: &[u8], w: usize, x: usize, y: usize) -> (p: u8)
    ensures
        y * w + x < gray@.len() ==> p == gray@[y * w + x],
{
    let n = gray.len();
    let prod = y.checked_mul(w);
    if prod.is_none() {
        return 0;
    }
    let row = prod.unwrap();
    let idx = row.checked_add(x);
    if idx.is_none() {
        return 0;
    }
    let i = idx.unwrap();
    if i < n { gray[i] } else { 0 }
}

/// `rqrr::PreparedImage::prepare_from_greyscale`, `detect_grids` and
/// `Grid::decode_to` on each grid found. Claims only that the result, grid
/// by grid, is the named function of the image and its size.
#[verifier::external_body]
fn qr_decode_grids(gray: &[u8], w: usize, h: usize) -> (r: Vec<Option<(u8, Vec<u8>)>>)
    requires
        w * h <= gray@.len(),
    ensures
        decoded_view(r@) == qr_scan_spec(gray@, w, h),
{
    let mut img = rqrr::PreparedImage::prepare_from_greyscale(w, h, |x, y| grey_at(gray, w, x, y));
    img.detect_grids().iter().map(|g| {
        let mut out = Vec::new();
        match g.decode_to(&mut out) {
            Ok(meta) => Some((meta.version.0 as u8, out)),
            Err(_) => None,
        }
    }).collect()
}

/// The codes that decoded, in the order their grids were found.
pub open spec fn decoded_codes(rs: Seq<Option<(u8, Seq<u8>)>>) -> Seq<(u8, Seq<u8>)>
    decreases rs.len(),
{
    if rs.len() == 0 {
        Seq::empty()
    } else {
        let prev = decoded_codes(rs.drop_last());
        match rs.last() {
            Some(c) => prev.push(c),
            None => prev,
        }
    }
}

/// Decode every QR code in a `w`×`h` greyscale frame: the version and bytes
/// of each code that decoded, skipping grids that did not.
pub fn rqrr_decode(gray: &[u8], w: usize, h: usize) -> (codes: Vec<(u8, Vec<u8>)>)
    requires
        w * h <= gray@.len(),
    ensures
        codes@.len() == decoded_codes(qr_scan_spec(gray@, w, h)).len(),
        forall|i: int| 0 <= i < codes@.len() ==>
            (#[trigger] codes@[i]).0 == decoded_codes(qr_scan_spec(gray@, w, h))[i].0
            && codes@[i].1@ == decoded_codes(qr_scan_spec(gray@, w, h))[i].1,
{
    let grids = qr_decode_grids(gray, w, h);
    let ghost all = qr_scan_spec(gray@, w, h);
    let mut out: Vec<(u8, Vec<u8>)> = Vec::new();
    let mut i: usize = 0;
    while i < grids.len()
        invariant
            i <= grids@.len(),
            decoded_view(grids@) == all,
            out@.len() == decoded_codes(all.take(i as int)).len(),
            forall|j: int| 0 <= j < out@.len() ==>
                (#[trigger] out@[j]).0 == decoded_codes(all.take(i as int))[j].0
                && out@[j].1@ == decoded_codes(all.take(i as int))[j].1,
        decreases grids@.len() - i,
    {
        proof {
            assert(all.take(i as int + 1).drop_last() =~= all.take(i as int));
            assert(all[i as int] == decoded_view(grids@)[i as int]);
        }
        match &grids[i] {
            Some((v, d)) => {
                out.push((*v, d.clone()));
            },
            None => {},
        }
        i = i + 1;
    }
    proof {
        assert(all.take(grids@.len() as int) =~= all);
    }
    out
}

// ─── Routing ───────────────────────────────────────────────────────

/// Frames the decoder skips after a code was accepted.
pub const QR_COOLDOWN_FRAMES: u32 = 90;

/// What to do with a decoded code.
#[derive(Debug, Clone, Copy, PartialEq, Eq, Structural)]
pub enum DecodeRoute {
    /// Drop it: the camera tuning is on screen, or a passphrase is being typed.
    Drop,
    /// A fragment of a multi-frame transfer: hand it to the frame assembler.
    Fragment,
    /// A whole code: process it.
    Accept,
}

/// Scanning state kept across frames.
#[derive(Clone, Copy)]
pub struct QrTracker {
    /// The "code found" beep has sounded for the current code.
    pub finders_beeped: bool,
    /// The QR version the framing guide is sized for.
    pub guide_ver: u8,
    /// Consecutive decodes at the guide's version.
    pub ver_same_cnt: u8,
    /// Frames left before the next code is accepted.
    pub cooldown: u32,
}

/// A tracker with no code seen.
pub open spec fn tracker_fresh() -> QrTracker {
    QrTracker { finders_beeped: false, guide_ver: 0, ver_same_cnt: 0, cooldown: 0 }
}

/// The tracker after a code of version `ver` decoded, with whether to beep
/// and where the code goes. The guide follows every valid version (1 to
/// 40); the beep sounds once per code; an accepted code starts the cooldown
/// and re-arms the beep.
pub open spec fn route_spec(t: QrTracker, ver: u8, data: Seq<u8>, len: nat, board: Board, cam_tune_active: bool,
    state: AppState) -> (QrTracker, bool, DecodeRoute)
{
    let t1 = QrTracker { finders_beeped: true, ..t };
    let t2 = if ver != t.guide_ver && 1 <= ver <= 40 { QrTracker { guide_ver: ver, ver_same_cnt: 1, ..t1 } } else { t1 };
    let beep = !t.finders_beeped;
    if board == Board::Waveshare && cam_tune_active {
        (t2, beep, DecodeRoute::Drop)
    } else if is_multiframe_spec(data, len) {
        (t2, beep, DecodeRoute::Fragment)
    } else if state == AppState::PassphraseEntry {
        (t2, beep, DecodeRoute::Drop)
    } else {
        (QrTracker { cooldown: QR_COOLDOWN_FRAMES, finders_beeped: false, ..t2 }, beep, DecodeRoute::Accept)
    }
}

/// The "code found" beep sounds once per code: it sounds exactly when the
/// beep is armed, a code that is not accepted leaves it disarmed for the next
/// decode, and an accepted code re-arms it and starts the 90-frame cooldown.
/// A multi-frame fragment always reaches the frame assembler unless the camera
/// tuning is on screen, and the framing guide follows every valid version.
pub proof fn lemma_route_beeps_once_per_code(t: QrTracker, ver: u8, data: Seq<u8>, len: nat, board: Board,
    cam_tune_active: bool, state: AppState, ver2: u8, data2: Seq<u8>, len2: nat, board2: Board,
    cam_tune_active2: bool, state2: AppState)
    ensures
        ({
            let (t1, beep, r) = route_spec(t, ver, data, len, board, cam_tune_active, state);
            let beep2 = route_spec(t1, ver2, data2, len2, board2, cam_tune_active2, state2).1;
            &&& beep == !t.finders_beeped
            &&& (r != DecodeRoute::Accept ==> !beep2 && t1.cooldown == t.cooldown)
            &&& (r == DecodeRoute::Accept ==> beep2 && t1.cooldown == QR_COOLDOWN_FRAMES)
            &&& (is_multiframe_spec(data, len) && !(board == Board::Waveshare && cam_tune_active)
                    ==> r == DecodeRoute::Fragment)
            &&& (1 <= ver <= 40 ==> t1.guide_ver == ver)
            &&& (!(1 <= ver <= 40) ==> t1.guide_ver == t.guide_ver)
        }),
{
}

impl QrTracker {
    /// A tracker with no code seen.
    pub fn new() -> (t: Self)
        ensures
            t == tracker_fresh(),
    {
        QrTracker { finders_beeped: false, guide_ver: 0, ver_same_cnt: 0, cooldown: 0 }
    }

    /// Route a decoded code (see [`route_spec`]). Returns whether to beep and
    /// where the code goes.
    pub fn route(&mut self, ver: u8, data: &[u8], len: usize, board: Board, cam_tune_active: bool, state: AppState)
        -> (r: (bool, DecodeRoute))
        requires
            len <= data@.len(),
        ensures
            (*final(self), r.0, r.1) == route_spec(*old(self), ver, data@, len as nat, board, cam_tune_active, state),
    {
        let beep = !self.finders_beeped;
        self.finders_beeped = true;
        if ver != self.guide_ver && 1 <= ver && ver <= 40 {
            self.ver_same_cnt = 1;
            self.guide_ver = ver;
        }
        if board == Board::Waveshare && cam_tune_active {
            return (beep, DecodeRoute::Drop);
        }
        if is_multiframe(data, len) {
            return (beep, DecodeRoute::Fragment);
        }
        if state == AppState::PassphraseEntry {
            return (beep, DecodeRoute::Drop);
        }
        self.cooldown = QR_COOLDOWN_FRAMES;
        self.finders_beeped = false;
        (beep, DecodeRoute::Accept)
    }
}

// ─── Immediate taps ────────────────────────────────────────────────

/// Kind of a single-finger touch report.
#[derive(Debug, Clone, Copy, PartialEq, Eq, Structural)]
pub enum TouchPhase {
    /// The finger came down.
    PressDown,
    /// The finger stays on the panel.
    Contact,
    /// The finger lifted.
    Lift,
}

/// What an immediate tap did.
#[derive(Debug, Clone, Copy, PartialEq, Eq, Structural)]
pub enum ImmediateTap {
    /// Not handled here: the touch goes to the regular touch tracking.
    NotHandled,
    /// The back button left the scanning screen; redraw.
    Back,
    /// The exit button left the camera tuning; redraw.
    Exit,
    /// Another camera parameter was selected; redraw the overlay.
    ParamSelected,
    /// A press on the parameter panel that changed nothing.
    Absorbed,
}

/// The first key slot of a multisig configuration under construction that
/// is still empty (slot 0 when all are filled).
pub open spec fn first_empty_key(empty: Seq<bool>, from: nat) -> u8
    decreases empty.len() - from,
{
    if from >= empty.len() {
        0
    } else if empty[from as int] {
        from as u8
    } else {
        first_empty_key(empty, from + 1)
    }
}

/// The parameter button under a press on the tuning panel: rows 38..=82,
/// 85..=129 and 132..=176, columns split at x = 259.
pub open spec fn panel_param_at(x: u16, y: u16) -> Option<u8> {
    let col: int = if x < 259 { 0 } else { 1 };
    if in_span(y, 38, 82) {
        Some(col as u8)
    } else if in_span(y, 85, 129) {
        Some((2 + col) as u8)
    } else if in_span(y, 132, 176) {
        Some((4 + col) as u8)
    } else {
        None
    }
}

/// Where the back button leads from a scanning screen: to the next empty
/// key slot while a multisig configuration is being built (`ms_keys` holds
/// the emptiness of its key slots), from the camera tuning to the settings,
/// from the secret decryption to the single-signature menu, else home.
pub open spec fn scan_back_spec(s: UiState, ms_keys: Option<Seq<bool>>, s1: UiState) -> bool {
    match ms_keys {
        Some(e) => s1 == goto(s, AppState::MultisigAddKey { key_idx: first_empty_key(e, 0) }),
        None => {
            if s.app.state == AppState::CameraSettings {
                s1 == goto(s, AppState::SettingsMenu)
            } else if s.app.state == AppState::DecryptSecretScan {
                s1 == goto(s, AppState::SingleSigMenu)
            } else {
                went_home(s, s1)
            }
        },
    }
}

/// The touches a scanning screen answers at once (unless an earlier tap is
/// still pending): the back button (top-left 48×48) leaves the screen; with
/// the camera tuning on screen, the exit button (x ≥ 198, y ≤ 36) returns
/// to the settings and a press on the parameter panel selects a parameter.
pub open spec fn immediate_tap_spec(s0: UiState, tap_pending: bool, touch: Option<(TouchPhase, u16, u16)>,
    ms_keys: Option<Seq<bool>>, s1: UiState, r: ImmediateTap) -> bool
{
    match touch {
        Some((phase, x, y)) => {
            if tap_pending || phase == TouchPhase::Lift {
                s1 == s0 && r == ImmediateTap::NotHandled
            } else if x <= 48 && y <= 48 {
                scan_back_spec(UiState { cam: CameraTune { active: false, ..s0.cam }, ..s0 }, ms_keys, s1)
                    && r == ImmediateTap::Back
            } else if !s0.cam.active {
                s1 == s0 && r == ImmediateTap::NotHandled
            } else if x >= 198 && y <= 36 {
                s1 == goto(UiState { cam: CameraTune { active: false, ..s0.cam }, ..s0 }, AppState::SettingsMenu)
                    && r == ImmediateTap::Exit
            } else if phase == TouchPhase::PressDown && x >= 198 && y > 36 && y < 190 {
                match panel_param_at(x, y) {
                    Some(idx) => if idx != s0.cam.param {
                        s1 == (UiState { cam: CameraTune { param: idx, ..s0.cam }, ..s0 }) && r == ImmediateTap::ParamSelected
                    } else {
                        s1 == s0 && r == ImmediateTap::Absorbed
                    },
                    None => s1 == s0 && r == ImmediateTap::Absorbed,
                }
            } else {
                s1 == s0 && r == ImmediateTap::NotHandled
            }
        },
        None => s1 == s0 && r == ImmediateTap::NotHandled,
    }
}

fn first_empty(empty: &[bool]) -> (k: u8)
    requires
        empty@.len() <= 255,
    ensures
        k == first_empty_key(empty@, 0),
{
    let mut i: usize = 0;
    while i < empty.len()
        invariant
            i <= empty@.len() <= 255,
            first_empty_key(empty@, i as nat) == first_empty_key(empty@, 0),
        decreases empty@.len() - i,
    {
        if empty[i] {
            return i as u8;
        }
        i = i + 1;
    }
    0
}

/// Answer a touch on a scanning screen at once (see [`immediate_tap_spec`]).
/// `ms_keys` is given while a multisig configuration is being built.
pub fn check_immediate_tap(s: &mut UiState, tap_pending: bool, touch: Option<(TouchPhase, u16, u16)>,
    ms_keys: Option<&[bool]>) -> (r: ImmediateTap)
    requires
        old(s).wf(),
        ms_keys matches Some(e) ==> e@.len() <= 255,
    ensures
        immediate_tap_spec(*old(s), tap_pending, touch,
            match ms_keys { Some(e) => Some(e@), None => None }, *final(s), r),
        final(s).wf(),
{
    if tap_pending {
        return ImmediateTap::NotHandled;
    }
    match touch {
        Some((phase, x, y)) => {
            if phase == TouchPhase::Lift {
                return ImmediateTap::NotHandled;
            }
            if x <= 48 && y <= 48 {
                s.cam.active = false;
                match ms_keys {
                    Some(e) => {
                        let k = first_empty(e);
                        s.app.state = AppState::MultisigAddKey { key_idx: k };
                    },
                    None => {
                        if s.app.state == AppState::CameraSettings {
                            s.app.state = AppState::SettingsMenu;
                        } else if s.app.state == AppState::DecryptSecretScan {
                            s.app.state = AppState::SingleSigMenu;
                        } else {
                            s.app.go_main_menu();
                        }
                    },
                }
                return ImmediateTap::Back;
            }
            if !s.cam.active {
                return ImmediateTap::NotHandled;
            }
            if x >= 198 && y <= 36 {
                s.cam.active = false;
                s.app.state = AppState::SettingsMenu;
                return ImmediateTap::Exit;
            }
            if phase == TouchPhase::PressDown && x >= 198 && y > 36 && y < 190 {
                let col: u8 = if x < 259 { 0 } else { 1 };
                let row: Option<u8> = if within(y, 38, 82) {
                    Some(0)
                } else if within(y, 85, 129) {
                    Some(1)
                } else if within(y, 132, 176) {
                    Some(2)
                } else {
                    None
                };
                if let Some(rw) = row {
                    let idx = rw * 2 + col;
                    if idx < 6 && idx != s.cam.param {
                        s.cam.param = idx;
                        return ImmediateTap::ParamSelected;
                    }
                }
                return ImmediateTap::Absorbed;
            }
            ImmediateTap::NotHandled
        },
        None => ImmediateTap::NotHandled,
    }
}

// ─── Confirmed codes ───────────────────────────────────────────────

/// Where a confirmed code goes.
#[derive(Debug, Clone, Copy, PartialEq, Eq, Structural)]
pub enum ConfirmedRoute {
    /// A message hash was asked for: the code is read as one.
    SignHash,
    /// The secret decryption screen is scanning: the code is a ciphertext.
    Ciphertext,
    /// Otherwise the code is routed by what it carries.
    Payload { kind: QrPayloadKind },
}

/// Where a confirmed code goes: a pending hash request first, then the
/// decryption screen, then the payload's own kind.
pub open spec fn confirmed_route_spec(hash_pending: bool, state: AppState, data: Seq<u8>) -> ConfirmedRoute {
    if hash_pending {
        ConfirmedRoute::SignHash
    } else if state == AppState::DecryptSecretScan {
        ConfirmedRoute::Ciphertext
    } else {
        ConfirmedRoute::Payload { kind: qr_payload_kind(data) }
    }
}

/// Where a confirmed code goes (see [`confirmed_route_spec`]).
pub fn confirmed_route(hash_pending: bool, state: AppState, data: &[u8]) -> (r: ConfirmedRoute)
    ensures
        r == confirmed_route_spec(hash_pending, state, data@),
{
    if hash_pending {
        ConfirmedRoute::SignHash
    } else if state == AppState::DecryptSecretScan {
        ConfirmedRoute::Ciphertext
    } else {
        ConfirmedRoute::Payload { kind: classify_qr_payload(data) }
    }
}

/// A co-signer's key arrives while a multisig configuration of `n` keys is
/// built (`empty` holds the emptiness of its key slots): it goes into the
/// first empty slot (slot 0 when none is), and the next key is asked for,
/// or the address shown once the last slot is filled.
pub open spec fn cosigner_added_spec(empty: Seq<bool>, n: u8) -> (u8, AppState) {
    let ki = first_empty_key(empty, 0);
    if ki + 1 >= n {
        (ki, AppState::MultisigShowAddress)
    } else {
        (ki, AppState::MultisigAddKey { key_idx: (ki + 1) as u8 })
    }
}

/// Place a co-signer's key (see [`cosigner_added_spec`]).
pub fn cosigner_added(empty: &[bool], n: u8) -> (r: (u8, AppState))
    requires
        empty@.len() <= 255,
    ensures
        r == cosigner_added_spec(empty@, n),
{
    let ki = first_empty(empty);
    proof {
        lemma_first_empty_bound(empty@, 0);
    }
    if (ki as u16) + 1 >= (n as u16) {
        (ki, AppState::MultisigShowAddress)
    } else {
        (ki, AppState::MultisigAddKey { key_idx: ki + 1 })
    }
}

proof fn lemma_first_empty_bound(empty: Seq<bool>, from: nat)
    requires
        empty.len() <= 255,
    ensures
        first_empty_key(empty, from) <= 254,
    decreases empty.len() - from,
{
    if from < empty.len() && !empty[from as int] {
        lemma_first_empty_bound(empty, from + 1);
    }
}


// ─── Camera frames ─────────────────────────────────────────────────

impl QrTracker {
    /// A frame of the direct-capture path: while the cooldown runs it counts
    /// down; afterwards every second frame is decoded, unless the camera
    /// tuning is on screen. Returns whether to decode this frame.
    pub fn dma_frame(&mut self, frame_no: u32, cam_tune_active: bool) -> (decode: bool)
        ensures
            old(self).cooldown > 0 ==> !decode && *final(self) == (QrTracker { cooldown: (old(self).cooldown - 1) as u32, ..*old(self) }),
            old(self).cooldown == 0 ==> *final(self) == *old(self) && decode == (frame_no % 2 == 0 && !cam_tune_active),
    {
        if self.cooldown > 0 {
            self.cooldown = self.cooldown - 1;
            false
        } else {
            frame_no % 2 == 0 && !cam_tune_active
        }
    }

    /// A frame of the buffered-capture path: only every second frame (when
    /// decoding is allowed) counts; on those the cooldown counts down, and
    /// once it has run out the frame is decoded. Returns whether to decode.
    pub fn dvp_frame(&mut self, frame_no: u32, decode_allowed: bool) -> (decode: bool)
        ensures
            !(frame_no % 2 == 0 && decode_allowed) ==> !decode && *final(self) == *old(self),
            (frame_no % 2 == 0 && decode_allowed) && old(self).cooldown > 0 ==>
                !decode && *final(self) == (QrTracker { cooldown: (old(self).cooldown - 1) as u32, ..*old(self) }),
            (frame_no % 2 == 0 && decode_allowed) && old(self).cooldown == 0 ==> decode && *final(self) == *old(self),
    {
        if !(frame_no % 2 == 0 && decode_allowed) {
            return false;
        }
        if self.cooldown > 0 {
            self.cooldown = self.cooldown - 1;
            false
        } else {
            true
        }
    }

    /// A decoded frame held no code: the next code beeps again.
    pub fn nothing_found(&mut self)
        ensures
            *final(self) == (QrTracker { finders_beeped: false, ..*old(self) }),
    {
        self.finders_beeped = false;
    }
}

/// A byte of a frame buffer, black past its end.
pub open spec fn px(data: Seq<u8>, i: int) -> u8 {
    if 0 <= i < data.len() { data[i] } else { 0 }
}

fn px_at(data: &[u8], i: usize) -> (p: u8)
    ensures
        p == px(data@, i as int),
{
    if i < data.len() { data[i] } else { 0 }
}

/// Side of the square image the decoder reads from the direct capture.
pub const DECODE_SIDE: usize = 240;

/// Pixel (`dx`, `dy`) of the decoder's image of a direct-capture frame with
/// `bpl` bytes per line: the rounded mean of the 2×2 block at line 2·dx,
/// column 2·dy (the sensor is mounted turned by a quarter).
pub open spec fn dma_pixel(data: Seq<u8>, bpl: int, dx: int, dy: int) -> u8 {
    let r = 2 * dx;
    let c = 2 * dy;
    ((px(data, r * bpl + c) + px(data, r * bpl + c + 1) + px(data, (r + 1) * bpl + c) + px(data, (r + 1) * bpl + c + 1) + 2)
        / 4) as u8
}

/// The decoder's 240×240 image of a direct-capture frame, row by row.
pub open spec fn dma_image_spec(data: Seq<u8>, bpl: int) -> Seq<u8> {
    Seq::new((DECODE_SIDE * DECODE_SIDE) as nat, |k: int| dma_pixel(data, bpl, k % 240, k / 240))
}

/// The decoder's image of a direct-capture frame (see [`dma_image_spec`]).
pub fn dma_decode_image(data: &[u8], bpl: usize) -> (img: Vec<u8>)
    requires
        bpl <= 4096,
    ensures
        img@ == dma_image_spec(data@, bpl as int),
{
    let mut img: Vec<u8> = Vec::new();
    let mut dy: usize = 0;
    while dy < DECODE_SIDE
        invariant
            bpl <= 4096,
            dy <= DECODE_SIDE,
            img@.len() == dy * 240,
            forall|k: int| 0 <= k < img@.len() ==> #[trigger] img@[k] == dma_pixel(data@, bpl as int, k % 240, k / 240),
        decreases DECODE_SIDE - dy,
    {
        let mut dx: usize = 0;
        while dx < DECODE_SIDE
            invariant
                bpl <= 4096,
                dy < DECODE_SIDE,
                dx <= DECODE_SIDE,
                img@.len() == dy * 240 + dx,
                forall|k: int| 0 <= k < img@.len() ==> #[trigger] img@[k] == dma_pixel(data@, bpl as int, k % 240, k / 240),
            decreases DECODE_SIDE - dx,
        {
            let r = 2 * dx;
            let c = 2 * dy;
            assert(r * bpl <= 478 * 4096) by (nonlinear_arith)
                requires r <= 478, bpl <= 4096;
            assert((r + 1) * bpl <= 479 * 4096) by (nonlinear_arith)
                requires r <= 478, bpl <= 4096;
            let a = px_at(data, r * bpl + c) as u16;
            let b = px_at(data, r * bpl + c + 1) as u16;
            let e = px_at(data, (r + 1) * bpl + c) as u16;
            let d = px_at(data, (r + 1) * bpl + c + 1) as u16;
            let v = ((a + b + e + d + 2) / 4) as u8;
            let ghost k = img@.len() as int;
            assert(k % 240 == dx && k / 240 == dy) by (nonlinear_arith)
                requires k == dy * 240 + dx, dx < 240;
            img.push(v);
            dx = dx + 1;
        }
        dy = dy + 1;
    }
    assert(img@ =~= dma_image_spec(data@, bpl as int));
    img
}

/// Bytes per line of the buffered capture: 320 pixels of two bytes on the
/// Waveshare board, of one byte on the M5Stack board.
pub open spec fn dvp_bpl(board: Board) -> int {
    if board == Board::Waveshare { 640 } else { 320 }
}

/// Lines of a buffered frame of `len` bytes that are used (at most 240);
/// a frame of fewer than 100 lines is dropped.
pub open spec fn dvp_lines(board: Board, len: nat) -> int {
    let l = len as int / dvp_bpl(board);
    if l < 240 { l } else { 240 }
}

/// Width of the decoder's image of a buffered frame: its centre 240 columns.
pub const DVP_DECODE_W: usize = 240;

/// The byte of a buffered frame of `h` lines that holds pixel (`x`, `y`):
/// the luma byte of a two-byte pixel on the Waveshare board; on the M5Stack
/// board the frame is stored upside down.
pub open spec fn dvp_src(board: Board, h: int, y: int, x: int) -> int {
    if board == Board::Waveshare { y * 640 + x * 2 } else { (h - 1 - y) * 320 + x }
}

/// The decoder's image of a buffered frame of `h` lines: 240 columns from
/// column 40 on, row by row.
pub open spec fn dvp_image_spec(data: Seq<u8>, board: Board, h: int) -> Seq<u8> {
    Seq::new((240 * h) as nat, |k: int| px(data, dvp_src(board, h, k / 240, 40 + k % 240)))
}

/// The decoder's image of a buffered frame and its height (see
/// [`dvp_image_spec`]); `None` when the frame has fewer than 100 lines.
pub fn dvp_decode_image(data: &[u8], board: Board) -> (r: Option<(Vec<u8>, usize)>)
    ensures
        dvp_lines(board, data@.len()) < 100 ==> r is None,
        dvp_lines(board, data@.len()) >= 100 ==> (r matches Some((img, h))
            && h == dvp_lines(board, data@.len()) && img@ == dvp_image_spec(data@, board, h as int)),
{
    let waveshare = match board { Board::Waveshare => true, Board::M5Stack => false };
    let bpl: usize = if waveshare { 640 } else { 320 };
    let lines = data.len() / bpl;
    let h: usize = if lines < 240 { lines } else { 240 };
    if h < 100 {
        return None;
    }
    let mut img: Vec<u8> = Vec::new();
    let mut y: usize = 0;
    while y < h
        invariant
            100 <= h <= 240,
            bpl == dvp_bpl(board),
            waveshare == (board == Board::Waveshare),
            y <= h,
            img@.len() == y * 240,
            forall|k: int| 0 <= k < img@.len() ==> #[trigger] img@[k] == px(data@, dvp_src(board, h as int, k / 240, 40 + k % 240)),
        decreases h - y,
    {
        let mut c: usize = 0;
        while c < DVP_DECODE_W
            invariant
                100 <= h <= 240,
                bpl == dvp_bpl(board),
                waveshare == (board == Board::Waveshare),
                y < h,
                c <= DVP_DECODE_W,
                img@.len() == y * 240 + c,
                forall|k: int| 0 <= k < img@.len() ==> #[trigger] img@[k] == px(data@, dvp_src(board, h as int, k / 240, 40 + k % 240)),
            decreases DVP_DECODE_W - c,
        {
            let x = 40 + c;
            let idx: usize = if waveshare { y * 640 + x * 2 } else { (h - 1 - y) * 320 + x };
            let v = px_at(data, idx);
            let ghost k = img@.len() as int;
            assert(k % 240 == c && k / 240 == y) by (nonlinear_arith)
                requires k == y * 240 + c, c < 240;
            img.push(v);
            c = c + 1;
        }
        y = y + 1;
    }
    assert(img@ =~= dvp_image_spec(data@, board, h as int));
    Some((img, h))
}

/// A tap on a scanning screen is passed on to the touch handlers only at
/// the back button (top-left 48×48); other screens pass every tap on.
pub open spec fn scan_tap_passes_spec(state: AppState, x: u16, y: u16) -> bool {
    let is_scan = state == AppState::ScanQR || state == AppState::SignMsgScanQr || state == AppState::DecryptSecretScan;
    !is_scan || (x <= 48 && y <= 48)
}

/// Whether a tap during scanning is passed on (see [`scan_tap_passes_spec`]).
pub fn scan_tap_passes(state: AppState, x: u16, y: u16) -> (b: bool)
    ensures
        b == scan_tap_passes_spec(state, x, y),
{
    let is_scan = match state {
        AppState::ScanQR | AppState::SignMsgScanQr | AppState::DecryptSecretScan => true,
        _ => false,
    };
    !is_scan || (x <= 48 && y <= 48)
}

/// The tuning value under a drag along the viewfinder's slider: x from 56
/// to 264 maps onto 0..=255.
pub open spec fn drag_value(x: u16) -> u8 {
    let c: int = if x < 56 { 0 } else if x > 264 { 208 } else { x - 56 };
    (c * 255 / 208) as u8
}

/// A drag on the camera view: with the tuning on screen, a drag along the
/// slider strip (y ≥ 198, x 52..=268) sets the selected parameter and marks
/// the values for writing. Returns whether the slider moved.
pub fn camera_drag(cam: &mut CameraTune, x: u16, y: u16) -> (moved: bool)
    requires
        old(cam).param < CAM_PARAMS,
    ensures
        moved == (old(cam).active && y >= 198 && in_span(x, 52, 268)),
        moved ==> final(cam).vals@ == old(cam).vals@.update(old(cam).param as int, drag_value(x))
            && *final(cam) == (CameraTune { vals: final(cam).vals, dirty: true, ..*old(cam) }),
        !moved ==> *final(cam) == *old(cam),
{
    if cam.active && y >= 198 && within(x, 52, 268) {
        let c: u32 = if x < 56 { 0 } else if x > 264 { 208 } else { (x - 56) as u32 };
        let v = (c * 255 / 208) as u8;
        cam.vals[cam.param as usize] = v;
        cam.dirty = true;
        true
    } else {
        false
    }
}


// ─── Multi-frame progress ──────────────────────────────────────────

/// Most progress dots shown.
pub const MF_DOTS_MAX: u8 = 20;

/// The progress dots of a multi-frame scan of `total` frames: one per frame
/// (at most 20), 6 pixels wide with 4 between, centred on the 320-pixel
/// strip; each with its left edge and whether its frame has arrived.
pub open spec fn counter_dots_spec(received: Seq<bool>, total: u8) -> Seq<(i32, bool)> {
    let n: int = if total < MF_DOTS_MAX { total as int } else { MF_DOTS_MAX as int };
    let x0: int = (320 - (n * 6 + (n - 1) * 4)) / 2;
    Seq::new(n as nat, |i: int| ((x0 + i * 10) as i32, received[i]))
}

/// The progress dots of a multi-frame scan (see [`counter_dots_spec`]).
pub fn counter_dots(received: &[bool], total: u8) -> (dots: Vec<(i32, bool)>)
    requires
        received@.len() >= (if total < MF_DOTS_MAX { total as int } else { MF_DOTS_MAX as int }),
    ensures
        dots@ == counter_dots_spec(received@, total),
{
    let n: u8 = if total < MF_DOTS_MAX { total } else { MF_DOTS_MAX };
    let mut dots: Vec<(i32, bool)> = Vec::new();
    if n == 0 {
        assert(dots@ =~= counter_dots_spec(received@, total));
        return dots;
    }
    let total_w: i32 = (n as i32) * 6 + ((n as i32) - 1) * 4;
    let x0: i32 = (320 - total_w) / 2;
    let mut i: u8 = 0;
    while i < n
        invariant
            1 <= n <= MF_DOTS_MAX,
            n as int == (if total < MF_DOTS_MAX { total as int } else { MF_DOTS_MAX as int }),
            received@.len() >= n,
            x0 as int == (320 - (n * 6 + (n - 1) * 4)) / 2,
            i <= n,
            dots@.len() == i,
            forall|k: int| 0 <= k < i ==> #[trigger] dots@[k] == ((x0 + k * 10) as i32, received@[k]),
        decreases n - i,
    {
        dots.push((x0 + (i as i32) * 10, received[i as usize]));
        i = i + 1;
    }
    assert(dots@ =~= counter_dots_spec(received@, total));
    dots
}


// ─── Applying a confirmed code ─────────────────────────────────────

/// What the scanner keeps of the codes it confirmed.
pub struct ScanResults {
    /// A message hash was asked for and the next code is read as one.
    pub sign_hash_pending: bool,
    /// The message hash to sign.
    pub sign_hash: [u8; 32],
    /// The last scanned address, lower case.
    pub scanned_addr: Vec<u8>,
    /// A covenant backup waiting for its file name.
    pub covenant: Vec<u8>,
}

/// A confirmed code read as a message hash (see [`sign_hash_spec`]): the
/// request is answered either way and the screen is redrawn; a hash is
/// stored and previewed, anything else leaves hash and screen as they were
/// (the caller then says "Not a 32-byte hash"). Returns whether a hash came.
pub fn apply_sign_hash(s: &mut UiState, r: &mut ScanResults, data: &[u8]) -> (accepted: bool)
    ensures
        !final(r).sign_hash_pending,
        final(r).scanned_addr == old(r).scanned_addr,
        final(r).covenant == old(r).covenant,
        accepted == sign_hash_spec(data@) is Some,
        sign_hash_spec(data@) matches Some(h) ==> final(r).sign_hash@ == h
            && *final(s) == goto(*old(s), AppState::SignMsgHashPreview),
        sign_hash_spec(data@) is None ==> final(r).sign_hash == old(r).sign_hash && *final(s) == *old(s),
{
    r.sign_hash_pending = false;
    match parse_sign_hash(data) {
        Some(h) => {
            r.sign_hash = h;
            s.app.state = AppState::SignMsgHashPreview;
            true
        },
        None => false,
    }
}

/// Longest scanned address kept.
pub const SCANNED_ADDR_MAX: usize = 128;

/// A confirmed `kaspa:` address: stored lower case (at most 128 bytes, see
/// [`normalized_address`]) and shown. Whether its checksum holds is the
/// caller's to test on the stored bytes.
pub fn apply_scanned_address(s: &mut UiState, r: &mut ScanResults, data: &[u8])
    ensures
        final(r).scanned_addr@ == normalized_address(data@, SCANNED_ADDR_MAX as nat),
        final(r).sign_hash_pending == old(r).sign_hash_pending,
        final(r).sign_hash == old(r).sign_hash,
        final(r).covenant == old(r).covenant,
        *final(s) == goto(*old(s), AppState::ShowAddress),
{
    r.scanned_addr = normalize_scanned_address(data, SCANNED_ADDR_MAX);
    s.app.state = AppState::ShowAddress;
}

/// A confirmed seed QR, once the caller decoded its word indices (a word
/// count of 0 when it did not decode) and checked the mnemonic: a valid
/// mnemonic replaces the words and their count and the passphrase screen
/// follows (the caller clears the passphrase entry); otherwise nothing
/// changes. Returns whether the seed was taken.
pub fn apply_mnemonic_qr(s: &mut UiState, mnemonic: &mut [u16; 24], word_count: &mut u8, indices: &[u16; 24],
    wc: u8, valid: bool) -> (taken: bool)
    ensures
        taken == (wc > 0 && valid),
        taken ==> *final(mnemonic) == *indices && *final(word_count) == wc
            && *final(s) == goto(*old(s), AppState::PassphraseEntry),
        !taken ==> *final(mnemonic) == *old(mnemonic) && *final(word_count) == *old(word_count)
            && *final(s) == *old(s),
{
    if wc > 0 && valid {
        *mnemonic = *indices;
        *word_count = wc;
        s.app.state = AppState::PassphraseEntry;
        true
    } else {
        false
    }
}

/// Largest covenant backup kept.
pub const COVENANT_MAX: usize = 4096;

/// A confirmed covenant backup in binary ("COVB"/"COVI"): its first 4096
/// bytes at most are kept and the file-name screen follows (the caller
/// clears the name entry).
pub fn apply_covenant_raw(s: &mut UiState, r: &mut ScanResults, data: &[u8])
    ensures
        final(r).covenant@ == data@.take(if data@.len() < COVENANT_MAX { data@.len() as int } else { COVENANT_MAX as int }),
        final(r).sign_hash_pending == old(r).sign_hash_pending,
        final(r).sign_hash == old(r).sign_hash,
        final(r).scanned_addr == old(r).scanned_addr,
        *final(s) == goto(*old(s), AppState::CovBackupName),
{
    let n = if data.len() < COVENANT_MAX { data.len() } else { COVENANT_MAX };
    let mut out: Vec<u8> = Vec::new();
    let mut i: usize = 0;
    while i < n
        invariant
            n <= data@.len(),
            i <= n,
            out@ == data@.take(i as int),
        decreases n - i,
    {
        out.push(data[i]);
        i = i + 1;
        assert(out@ =~= data@.take(i as int));
    }
    r.covenant = out;
    s.app.state = AppState::CovBackupName;
}

} // verus!

