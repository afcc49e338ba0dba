//! Decisions of the signing pipeline that do not depend on key material:
//! which mnemonic words make the seed, which seed slots co-sign a multisig
//! transaction, how each signing step proceeds, whether a transaction's
//! signed response fits the output buffer, which screen follows signing,
//! and the hex dump of the signed response.

use vstd::prelude::*;
use crate::input::{AppState, signing_next};
use crate::screens::{UiState, SignedQr, went_home};
use crate::qrframe::{cycle_signed_qr_step, signed_qr_frame, signed_qr_frame_spec, qr_frag_len, qr_frag_size};
use crate::sdfile::{hex_decode, all_hex, is_hex_digit, hex_nibble_spec};

verus! {

/// Capacity of the signed-response buffer.
pub const SIGNED_BUF_SIZE: usize = 1024;

/// Estimated size of a signed response: a 48-byte header, 156 bytes per
/// input and 45 bytes per output.
pub open spec fn signed_size_estimate(num_inputs: nat, num_outputs: nat) -> nat {
    48 + num_inputs * 156 + num_outputs * 45
}

/// Will the signed transaction fit the 1024-byte output buffer?
pub fn signed_tx_fits(num_inputs: usize, num_outputs: usize) -> (fits: bool)
    requires
        signed_size_estimate(num_inputs as nat, num_outputs as nat) <= usize::MAX,
    ensures
        fits == (signed_size_estimate(num_inputs as nat, num_outputs as nat) <= SIGNED_BUF_SIZE),
{
    let estimated_size = 48 + num_inputs * 156 + num_outputs * 45;
    estimated_size <= SIGNED_BUF_SIZE
}

/// Lower-case hex digit for a nibble.
pub open spec fn hex_digit_lower(v: u8) -> u8 {
    if v < 10 { (0x30 + v) as u8 } else { (0x61 + v - 10) as u8 }
}

/// Lower-case hex encoding of `b`.
pub open spec fn hex_lower(b: Seq<u8>) -> Seq<u8> {
    Seq::new(2 * b.len(), |i: int| if i % 2 == 0 { hex_digit_lower(b[i / 2] / 16) } else { hex_digit_lower(b[i / 2] % 16) })
}

/// Lower-case hex dump of the signed response (logged for companion tooling).
pub fn signed_hex_dump(buf: &[u8]) -> (hex: Vec<u8>)
    requires
        2 * buf@.len() <= usize::MAX,
    ensures
        hex@ == hex_lower(buf@),
{
    let mut out: Vec<u8> = Vec::new();
    let mut i: usize = 0;
    while i < buf.len()
        invariant
            i <= buf@.len(),
            out@ =~= hex_lower(buf@).take(2 * i),
        decreases buf@.len() - i,
    {
        let b = buf[i];
        let hi = b >> 4;
        let lo = b & 0x0F;
        assert(hi == b / 16 && lo == b % 16) by (bit_vector)
            requires hi == b >> 4, lo == b & 0x0F;
        out.push(if hi < 10 { 0x30 + hi } else { 0x61 + hi - 10 });
        out.push(if lo < 10 { 0x30 + lo } else { 0x61 + lo - 10 });
        i = i + 1;
    }
    out
}

/// The hex dump decodes back to the signed bytes with the hex reader used
/// for scanned and loaded data.
pub proof fn lemma_hex_dump_roundtrip(b: Seq<u8>)
    ensures
        all_hex(hex_lower(b)),
        hex_decode(hex_lower(b)) == b,
{
    let h = hex_lower(b);
    assert forall|i: int| 0 <= i < h.len() implies #[trigger] is_hex_digit(h[i]) by {
        assert(b[i / 2] / 16 < 16 && b[i / 2] % 16 < 16);
    }
    assert forall|j: int| 0 <= j < b.len() implies #[trigger] hex_decode(h)[j] == b[j] by {
        assert((2 * j) / 2 == j && (2 * j + 1) / 2 == j && (2 * j) % 2 == 0 && (2 * j + 1) % 2 == 1);
        let x = b[j];
        assert(hex_nibble_spec(h[2 * j]) == x / 16);
        assert(hex_nibble_spec(h[2 * j + 1]) == x % 16);
        assert((x / 16) * 16 + x % 16 == x);
    }
    assert(hex_decode(h) =~= b);
}

// ─── Seeds ─────────────────────────────────────────────────────────

/// The words of a mnemonic held as 24 word indices: the first 12 for a
/// 12-word mnemonic, all 24 otherwise.
pub open spec fn mnemonic_words_spec(indices: Seq<u16>, word_count: u8) -> Seq<u16> {
    indices.take(if word_count == 12 { 12int } else { 24int })
}

/// The words of a mnemonic (see [`mnemonic_words_spec`]); they make the seed.
pub fn mnemonic_words(indices: &[u16; 24], word_count: u8) -> (words: Vec<u16>)
    ensures
        words@ == mnemonic_words_spec(indices@, word_count),
{
    let n: usize = if word_count == 12 { 12 } else { 24 };
    let mut out: Vec<u16> = Vec::new();
    let mut i: usize = 0;
    while i < n
        invariant
            i <= n <= 24,
            n == (if word_count == 12 { 12usize } else { 24usize }),
            out@ == indices@.take(i as int),
        decreases n - i,
    {
        out.push(indices[i]);
        proof {
            assert(indices@.take(i as int + 1) =~= indices@.take(i as int).push(indices@[i as int]));
        }
        i = i + 1;
    }
    out
}

/// What signing needs to know of a seed slot.
#[derive(Clone, Copy)]
pub struct SlotInfo {
    pub empty: bool,
    /// The slot holds a raw private key rather than a mnemonic.
    pub raw_key: bool,
    /// Words of the mnemonic (2 marks an imported extended key).
    pub word_count: u8,
}

/// Most seeds that co-sign one transaction.
pub const MAX_SIGN_SLOTS: usize = 8;

/// A slot whose mnemonic can co-sign: not empty, not a raw key, not an
/// imported extended key.
pub open spec fn cosigns(s: SlotInfo) -> bool {
    !s.empty && !s.raw_key && s.word_count != 2
}

/// The co-signing slots among the first `k` slots, in slot order, at most eight.
pub open spec fn signing_slots(slots: Seq<SlotInfo>, k: nat) -> Seq<usize>
    decreases k,
{
    if k == 0 {
        Seq::empty()
    } else {
        let prev = signing_slots(slots, (k - 1) as nat);
        if prev.len() < MAX_SIGN_SLOTS && cosigns(slots[k - 1]) { prev.push((k - 1) as usize) } else { prev }
    }
}

/// Choose the seeds that sign a multisig transaction: the co-signing slots
/// in order, at most eight, and the position of the active slot among them
/// (if it is one).
pub fn select_signing_slots(slots: &[SlotInfo], active: usize) -> (r: (Vec<usize>, Option<usize>))
    ensures
        r.0@ == signing_slots(slots@, slots@.len()),
        r.1 matches Some(p) ==> p < r.0@.len() && r.0@[p as int] == active,
        r.1 is None ==> !r.0@.contains(active),
{
    let mut chosen: Vec<usize> = Vec::new();
    let mut active_pos: Option<usize> = None;
    let mut s: usize = 0;
    while s < slots.len()
        invariant
            s <= slots@.len(),
            chosen@ == signing_slots(slots@, s as nat),
            chosen@.len() <= MAX_SIGN_SLOTS,
            forall|i: int| 0 <= i < chosen@.len() ==> #[trigger] chosen@[i] < s,
            forall|i: int, j: int| 0 <= i < j < chosen@.len() ==> chosen@[i] < chosen@[j],
            active_pos matches Some(p) ==> p < chosen@.len() && chosen@[p as int] == active,
            active_pos is None ==> !chosen@.contains(active),
        decreases slots@.len() - s,
    {
        let slot = slots[s];
        if chosen.len() < MAX_SIGN_SLOTS && !slot.empty && !slot.raw_key && slot.word_count != 2 {
            if s == active {
                active_pos = Some(chosen.len());
            }
            chosen.push(s);
            proof {
                if active_pos is None {
                    assert forall|i: int| 0 <= i < chosen@.len() implies chosen@[i] != active by {
                        if i < chosen@.len() - 1 {
                            assert(chosen@.drop_last().contains(chosen@[i]) || chosen@[i] != active);
                        }
                    }
                }
            }
        } else {
            proof {
                assert(active_pos is None ==> !chosen@.contains(active));
            }
        }
        s = s + 1;
    }
    (chosen, active_pos)
}

/// Copy a serialized response of `n` bytes from `tmp` into `out`, or refuse
/// (returning 0 and leaving `out` alone) when it does not fit.
pub fn copy_signed_output(tmp: &[u8], n: usize, out: &mut [u8]) -> (written: usize)
    requires
        n <= tmp@.len(),
    ensures
        n > old(out)@.len() ==> written == 0 && final(out)@ == old(out)@,
        n <= old(out)@.len() ==> written == n
            && final(out)@ == tmp@.take(n as int) + old(out)@.skip(n as int),
{
    if n > out.len() {
        return 0;
    }
    let mut i: usize = 0;
    while i < n
        invariant
            i <= n <= tmp@.len(),
            n <= out@.len(),
            out@.len() == old(out)@.len(),
            out@ == tmp@.take(i as int) + old(out)@.skip(i as int),
        decreases n - i,
    {
        out[i] = tmp[i];
        proof {
            assert(out@ =~= tmp@.take(i as int + 1) + old(out)@.skip(i as int + 1));
        }
        i = i + 1;
    }
    n
}

// ─── One signing step ──────────────────────────────────────────────

/// How the last signing step signs.
#[derive(Debug, Clone, Copy, PartialEq, Eq, Structural)]
pub enum SignPath {
    /// No seed slot is active: nothing is signed.
    NoActiveSlot,
    /// A raw key cannot sign a standard PSKT: the signed length is 0.
    PsktRawKeyUnsupported,
    /// PSKT with multisig inputs: every loaded seed co-signs.
    PsktMultisig,
    /// PSKT with single-signature inputs: the active seed signs.
    PsktSingle,
    /// KSPT with the raw key of the active slot.
    KsptRawKey,
    /// KSPT with multisig inputs: every loaded seed co-signs.
    KsptMultisig,
    /// KSPT with single-signature inputs: the active seed signs (no
    /// signature count is kept).
    KsptSingle,
}

/// What one step of the signing screen does.
#[derive(Debug, Clone, Copy, PartialEq, Eq, Structural)]
pub enum SigningPlan {
    /// Not signing.
    Idle,
    /// No seed is loaded: refuse and return to the main menu.
    NoSeed,
    /// The signed transaction would not fit: refuse ("Too many inputs").
    TooLarge,
    /// Sign this input: derive the address keys first when `derive`, and
    /// on the last input reset the QR framing and sign along `sign`.
    Step { derive: bool, sign: Option<SignPath> },
}

/// The plan of a signing step in state `state` (see [`SigningPlan`]).
/// `active_raw` tells whether there is an active slot and whether it holds
/// a raw key; `any_multisig` whether an input is multisig or P2SH.
pub open spec fn signing_plan_spec(state: AppState, total_inputs: u8, seed_loaded: bool, num_inputs: nat,
    num_outputs: nat, pubkeys_cached: bool, is_pskt: bool, active_raw: Option<bool>, any_multisig: bool) -> SigningPlan
{
    match state {
        AppState::Signing { input_idx } => {
            if !seed_loaded {
                SigningPlan::NoSeed
            } else if signed_size_estimate(num_inputs, num_outputs) > SIGNED_BUF_SIZE {
                SigningPlan::TooLarge
            } else {
                let sign = if input_idx + 1 >= total_inputs {
                    Some(match active_raw {
                        None => SignPath::NoActiveSlot,
                        Some(raw) => if is_pskt {
                            if raw { SignPath::PsktRawKeyUnsupported }
                            else if any_multisig { SignPath::PsktMultisig }
                            else { SignPath::PsktSingle }
                        } else {
                            if raw { SignPath::KsptRawKey }
                            else if any_multisig { SignPath::KsptMultisig }
                            else { SignPath::KsptSingle }
                        },
                    })
                } else {
                    None
                };
                SigningPlan::Step { derive: !pubkeys_cached, sign }
            }
        },
        _ => SigningPlan::Idle,
    }
}

/// Every loaded seed co-signs along `p` (the multisig paths).
pub open spec fn every_seed_cosigns(p: SignPath) -> bool {
    p == SignPath::PsktMultisig || p == SignPath::KsptMultisig
}

/// Only the active seed's mnemonic key signs along `p`.
pub open spec fn only_active_seed_signs(p: SignPath) -> bool {
    p == SignPath::PsktSingle || p == SignPath::KsptSingle
}

/// `p` produces a standard PSKT rather than a KSPT.
pub open spec fn signs_pskt(p: SignPath) -> bool {
    p == SignPath::PsktMultisig || p == SignPath::PsktSingle || p == SignPath::PsktRawKeyUnsupported
}

/// On the last input of a transaction that fits, with a seed loaded and an
/// active slot that holds a mnemonic (not a raw key), the step signs; every
/// loaded seed co-signs exactly when some input is multisig or P2SH, and
/// otherwise the active seed alone signs. This holds for KSPT and PSKT alike,
/// and the output format follows the transaction's.
pub proof fn lemma_last_input_cosigns_iff_multisig(input_idx: u8, total_inputs: u8, num_inputs: nat,
    num_outputs: nat, pubkeys_cached: bool, is_pskt: bool, any_multisig: bool)
    requires
        input_idx + 1 >= total_inputs,
        signed_size_estimate(num_inputs, num_outputs) <= SIGNED_BUF_SIZE,
    ensures
        ({
            let p = signing_plan_spec(AppState::Signing { input_idx }, total_inputs, true, num_inputs,
                num_outputs, pubkeys_cached, is_pskt, Some(false), any_multisig);
            &&& p is Step
            &&& p->derive == !pubkeys_cached
            &&& p->sign is Some
            &&& every_seed_cosigns(p->sign.unwrap()) == any_multisig
            &&& only_active_seed_signs(p->sign.unwrap()) == !any_multisig
            &&& signs_pskt(p->sign.unwrap()) == is_pskt
        }),
{
}

/// Before the last input nothing is signed yet; a slot holding a raw key
/// never co-signs with the other seeds.
pub proof fn lemma_only_last_input_signs(input_idx: u8, total_inputs: u8, num_inputs: nat,
    num_outputs: nat, pubkeys_cached: bool, is_pskt: bool, active_raw: Option<bool>, any_multisig: bool)
    requires
        signed_size_estimate(num_inputs, num_outputs) <= SIGNED_BUF_SIZE,
    ensures
        ({
            let p = signing_plan_spec(AppState::Signing { input_idx }, total_inputs, true, num_inputs,
                num_outputs, pubkeys_cached, is_pskt, active_raw, any_multisig);
            &&& p is Step
            &&& (p->sign is Some <==> input_idx + 1 >= total_inputs)
            &&& (active_raw == Some(true) && p->sign is Some ==> !every_seed_cosigns(p->sign.unwrap()))
            &&& (active_raw is None && p->sign is Some ==> p->sign == Some(SignPath::NoActiveSlot))
        }),
{
}

/// Plan a signing step (see [`signing_plan_spec`]).
pub fn signing_plan(state: AppState, total_inputs: u8, seed_loaded: bool, num_inputs: usize, num_outputs: usize,
    pubkeys_cached: bool, is_pskt: bool, active_raw: Option<bool>, any_multisig: bool) -> (p: SigningPlan)
    requires
        signed_size_estimate(num_inputs as nat, num_outputs as nat) <= usize::MAX,
    ensures
        p == signing_plan_spec(state, total_inputs, seed_loaded, num_inputs as nat, num_outputs as nat,
            pubkeys_cached, is_pskt, active_raw, any_multisig),
{
    match state {
        AppState::Signing { input_idx } => {
            if !seed_loaded {
                return SigningPlan::NoSeed;
            }
            if !signed_tx_fits(num_inputs, num_outputs) {
                return SigningPlan::TooLarge;
            }
            let sign = if (input_idx as u16) + 1 >= (total_inputs as u16) {
                Some(match active_raw {
                    None => SignPath::NoActiveSlot,
                    Some(raw) => if is_pskt {
                        if raw { SignPath::PsktRawKeyUnsupported }
                        else if any_multisig { SignPath::PsktMultisig }
                        else { SignPath::PsktSingle }
                    } else {
                        if raw { SignPath::KsptRawKey }
                        else if any_multisig { SignPath::KsptMultisig }
                        else { SignPath::KsptSingle }
                    },
                })
            } else {
                None
            };
            SigningPlan::Step { derive: !pubkeys_cached, sign }
        },
        _ => SigningPlan::Idle,
    }
}

/// Framing cleared before the last input is signed.
pub open spec fn signing_framing(q: SignedQr) -> SignedQr {
    SignedQr { nframes: 0, frame: 0, large: false, manual_frames: false, ..q }
}

/// The state after a signing step that was carried out: one input further;
/// after the last one the frame-size choice, which a transaction without
/// multisig inputs skips for its QR code in standard framing.
pub open spec fn after_signing_step_spec(s: UiState, any_multisig: bool) -> UiState {
    let a = signing_next(s.app.state, s.app.total_inputs);
    let s1 = UiState { app: crate::input::WalletApp { state: a, ..s.app }, ..s };
    if a == AppState::ShowQrFrameChoice && !any_multisig {
        UiState { app: crate::input::WalletApp { state: AppState::ShowQR, ..s.app },
            qr: SignedQr { large: false, mode: 0, nframes: 0, via_density: false, ..s.qr }, ..s }
    } else {
        s1
    }
}

/// Finish a signing step (see [`after_signing_step_spec`]).
pub fn after_signing_step(s: &mut UiState, any_multisig: bool)
    requires
        old(s).app.state is Signing ==> old(s).app.state->input_idx < u8::MAX,
    ensures
        *final(s) == after_signing_step_spec(*old(s), any_multisig),
{
    let _ = s.app.advance_signing();
    if let AppState::ShowQrFrameChoice = s.app.state {
        if !any_multisig {
            s.qr.large = false;
            s.qr.mode = 0;
            s.qr.nframes = 0;
            s.qr.via_density = false;
            s.app.state = AppState::ShowQR;
        }
    }
}


/// What a signing step reads besides the interface state.
#[derive(Clone, Copy)]
pub struct SigningContext {
    /// A seed is loaded.
    pub seed_loaded: bool,
    /// Inputs and outputs of the transaction under review.
    pub num_inputs: usize,
    pub num_outputs: usize,
    /// The addresses of the active seed are derived already.
    pub pubkeys_cached: bool,
    /// The transaction came as a standard PSKT (not KSPT).
    pub is_pskt: bool,
    /// Whether a slot is active, and whether it holds a raw key.
    pub active_raw: Option<bool>,
    /// An input is multisig or P2SH.
    pub any_multisig: bool,
}

/// The plan of a signing step in state `s` (see [`signing_plan_spec`]).
pub open spec fn signing_step_plan(s: UiState, c: SigningContext) -> SigningPlan {
    signing_plan_spec(s.app.state, s.app.total_inputs, c.seed_loaded, c.num_inputs as nat, c.num_outputs as nat,
        c.pubkeys_cached, c.is_pskt, c.active_raw, c.any_multisig)
}

/// A step of the signing screen: plan it (see [`signing_plan_spec`]) and
/// move the interface as the plan says — home when no seed is loaded, to the
/// rejection screen when the signed transaction would not fit, and, before
/// the last input is signed, the QR framing back to a single standard frame.
/// The caller then derives and signs along the plan, and finishes the step
/// with [`after_signing_step`].
pub fn handle_signing_step(s: &mut UiState, c: SigningContext) -> (p: SigningPlan)
    requires
        signed_size_estimate(c.num_inputs as nat, c.num_outputs as nat) <= usize::MAX,
    ensures
        p == signing_step_plan(*old(s), c),
        p == SigningPlan::NoSeed ==> went_home(*old(s), *final(s)),
        p == SigningPlan::TooLarge ==> *final(s) == (UiState {
            app: crate::input::WalletApp { state: AppState::Rejected, ..old(s).app }, ..*old(s) }),
        p matches SigningPlan::Step { sign, .. } ==> *final(s) == (if sign is Some {
            UiState { qr: signing_framing(old(s).qr), ..*old(s) } } else { *old(s) }),
        p == SigningPlan::Idle ==> *final(s) == *old(s),
{
    let p = signing_plan(s.app.state, s.app.total_inputs, c.seed_loaded, c.num_inputs, c.num_outputs,
        c.pubkeys_cached, c.is_pskt, c.active_raw, c.any_multisig);
    match p {
        SigningPlan::NoSeed => {
            s.app.go_main_menu();
        },
        SigningPlan::TooLarge => {
            s.app.state = AppState::Rejected;
        },
        SigningPlan::Step { derive, sign } => {
            if sign.is_some() {
                s.qr.nframes = 0;
                s.qr.frame = 0;
                s.qr.large = false;
                s.qr.manual_frames = false;
            }
        },
        SigningPlan::Idle => {},
    }
    p
}

/// The frame the signed-QR display moves to at tick `idle_ticks` (see
/// [`cycle_signed_qr_step`]).
pub open spec fn next_signed_frame(s: UiState, idle_ticks: u32) -> Option<u8> {
    let q = s.qr;
    if s.app.state == AppState::ShowQR && q.nframes > 1 && !q.manual_frames
        && idle_ticks % (if q.via_density { 2000u32 } else { 400u32 }) == 0 {
        Some(((q.frame + 1) % (q.nframes as int)) as u8)
    } else {
        None
    }
}

/// One tick of the signed-QR display: while a multi-frame signed response
/// is shown and cycles by itself, every 400 ticks (2000 for frames meant
/// for another signer) the next frame comes up. Gives the bytes of the QR
/// code to draw, when a frame with bytes came up.
pub fn cycle_signed_qr(s: &mut UiState, buf: &[u8], idle_ticks: u32) -> (r: Option<Vec<u8>>)
    requires
        old(s).qr.len <= buf@.len(),
        old(s).qr.len + 255 <= usize::MAX,
        old(s).qr.frame < u8::MAX,
        old(s).qr.nframes > 1 ==> qr_frag_size(old(s).qr.len as nat, old(s).qr.nframes as nat) <= 131,
    ensures
        match next_signed_frame(*old(s), idle_ticks) {
            None => *final(s) == *old(s) && r is None,
            Some(f) => {
                &&& *final(s) == (UiState { qr: SignedQr { frame: f, ..old(s).qr }, ..*old(s) })
                &&& (r is None <==> qr_frag_len(old(s).qr.len as nat, old(s).qr.nframes as nat, f as nat) == 0)
                &&& (r matches Some(v) ==> v@ == signed_qr_frame_spec(buf@.take(old(s).qr.len as int), f as nat,
                        old(s).qr.nframes as nat))
            },
        },
{
    let showing = match s.app.state { AppState::ShowQR => true, _ => false };
    let q = s.qr;
    match cycle_signed_qr_step(showing, q.nframes, q.manual_frames, q.via_density, idle_ticks, q.frame) {
        None => None,
        Some(f) => {
            s.qr.frame = f;
            signed_qr_frame(buf, q.len, f, q.nframes)
        },
    }
}

} // verus!
