//! Multi-frame QR transport.
//!
//! Payloads too large for one QR code travel as a cycle of frames
//! `[frame_idx, total_frames, frag_len, payload...]`. The device splits its
//! signed output into balanced fragments and cycles through them; on the
//! scanning side fragments are collected, in any order, until every frame of
//! the set has arrived, and are then reassembled in frame order.

use vstd::prelude::*;

verus! {

/// Most frames one multi-frame set may have.
pub const MF_MAX_FRAMES: usize = 40;
/// Bytes reserved per received frame (a fragment is at most 255 bytes).
pub const MF_SLOT_SIZE: usize = 256;
/// Capacity of the receive buffer.
pub const MF_BUF_SIZE: usize = 10240;
/// Marker byte of the compact binary payload format.
pub const PAYLOAD_V1_RAW: u8 = 0x01;

/// `d[3..7]` spells the four ASCII bytes `a b c e`.
pub open spec fn has_tag(d: Seq<u8>, a: u8, b: u8, c: u8, e: u8) -> bool {
    d[3] == a && d[4] == b && d[5] == c && d[6] == e
}

/// The first `len` bytes of `d` form a multi-frame fragment: at least 7 bytes,
/// 2 to 40 frames, a frame index below the frame count and a non-empty
/// fragment; frame 0 must open with a recognised payload marker
/// (KSPT, kpub, PSKB, COVB, COVI, STLH or the compact binary marker).
pub open spec fn is_multiframe_spec(d: Seq<u8>, len: nat) -> bool {
    &&& len >= 7
    &&& d[1] >= 2 && d[1] <= MF_MAX_FRAMES
    &&& d[0] < d[1]
    &&& d[2] > 0
    &&& (d[0] > 0
        || has_tag(d, 0x4b, 0x53, 0x50, 0x54) || has_tag(d, 0x6b, 0x70, 0x75, 0x62)
        || has_tag(d, 0x50, 0x53, 0x4b, 0x42) || has_tag(d, 0x43, 0x4f, 0x56, 0x42)
        || has_tag(d, 0x43, 0x4f, 0x56, 0x49) || has_tag(d, 0x53, 0x54, 0x4c, 0x48)
        || d[3] == PAYLOAD_V1_RAW)
}

/// Check if decoded data is a multi-frame fragment.
pub fn is_multiframe(d: &[u8], len: usize) -> (b: bool)
    requires
        len <= d@.len(),
    ensures
        b == is_multiframe_spec(d@, len as nat),
{
    len >= 7
        && d[1] >= 2 && (d[1] as usize) <= MF_MAX_FRAMES
        && d[0] < d[1] && d[2] > 0
        && (d[0] > 0
            || (d[3] == 0x4b && d[4] == 0x53 && d[5] == 0x50 && d[6] == 0x54)
            || (d[3] == 0x6b && d[4] == 0x70 && d[5] == 0x75 && d[6] == 0x62)
            || (d[3] == 0x50 && d[4] == 0x53 && d[5] == 0x4b && d[6] == 0x42)
            || (d[3] == 0x43 && d[4] == 0x4f && d[5] == 0x56 && d[6] == 0x42)
            || (d[3] == 0x43 && d[4] == 0x4f && d[5] == 0x56 && d[6] == 0x49)
            || (d[3] == 0x53 && d[4] == 0x54 && d[5] == 0x4c && d[6] == 0x48)
            || d[3] == PAYLOAD_V1_RAW)
}

/// A well-shaped fragment (at least 7 bytes, 2 to 40 frames, a frame index
/// below the count, a non-empty fragment) is taken as a multi-frame fragment
/// when it is a later frame, or when it is frame 0 and its payload opens with
/// a recognised marker: "KSPT", "kpub", "PSKB", "COVB", "COVI", "STLH" or the
/// compact binary marker byte.
pub proof fn lemma_recognised_frames_are_fragments(d: Seq<u8>, len: nat)
    requires
        7 <= len <= d.len(),
        2 <= d[1] <= 40,
        d[0] < d[1],
        d[2] > 0,
        d[0] > 0
            || d.subrange(3, 7) == seq![0x4bu8, 0x53, 0x50, 0x54]
            || d.subrange(3, 7) == seq![0x6bu8, 0x70, 0x75, 0x62]
            || d.subrange(3, 7) == seq![0x50u8, 0x53, 0x4b, 0x42]
            || d.subrange(3, 7) == seq![0x43u8, 0x4f, 0x56, 0x42]
            || d.subrange(3, 7) == seq![0x43u8, 0x4f, 0x56, 0x49]
            || d.subrange(3, 7) == seq![0x53u8, 0x54, 0x4c, 0x48]
            || d[3] == 0x01u8,
    ensures
        is_multiframe_spec(d, len),
{
    let t = d.subrange(3, 7);
    assert(t[0] == d[3] && t[1] == d[4] && t[2] == d[5] && t[3] == d[6]);
}

/// Frame 0 whose payload opens with no recognised marker is not a fragment.
pub proof fn lemma_unmarked_first_frame_is_not_a_fragment(d: Seq<u8>, len: nat)
    requires
        7 <= len <= d.len(),
        d[0] == 0,
        d[3] != 0x01u8,
        d.subrange(3, 7) != seq![0x4bu8, 0x53, 0x50, 0x54],
        d.subrange(3, 7) != seq![0x6bu8, 0x70, 0x75, 0x62],
        d.subrange(3, 7) != seq![0x50u8, 0x53, 0x4b, 0x42],
        d.subrange(3, 7) != seq![0x43u8, 0x4f, 0x56, 0x42],
        d.subrange(3, 7) != seq![0x43u8, 0x4f, 0x56, 0x49],
        d.subrange(3, 7) != seq![0x53u8, 0x54, 0x4c, 0x48],
    ensures
        !is_multiframe_spec(d, len),
{
    let t = d.subrange(3, 7);
    assert(t[0] == d[3] && t[1] == d[4] && t[2] == d[5] && t[3] == d[6]);
    if has_tag(d, 0x4b, 0x53, 0x50, 0x54) { assert(t =~= seq![0x4bu8, 0x53, 0x50, 0x54]); }
    if has_tag(d, 0x6b, 0x70, 0x75, 0x62) { assert(t =~= seq![0x6bu8, 0x70, 0x75, 0x62]); }
    if has_tag(d, 0x50, 0x53, 0x4b, 0x42) { assert(t =~= seq![0x50u8, 0x53, 0x4b, 0x42]); }
    if has_tag(d, 0x43, 0x4f, 0x56, 0x42) { assert(t =~= seq![0x43u8, 0x4f, 0x56, 0x42]); }
    if has_tag(d, 0x43, 0x4f, 0x56, 0x49) { assert(t =~= seq![0x43u8, 0x4f, 0x56, 0x49]); }
    if has_tag(d, 0x53, 0x54, 0x4c, 0x48) { assert(t =~= seq![0x53u8, 0x54, 0x4c, 0x48]); }
}

// ─── Receiving ─────────────────────────────────────────────────────

/// Collects the fragments of one multi-frame set.
pub struct FrameAssembler {
    buf: [u8; 10240],
    received: [bool; 40],
    frag_size: [u16; 40],
    total: u8,
}

/// The observable state of a [`FrameAssembler`]: the frame count of the set
/// being collected (0 when none), which frames have arrived, and their fragments.
pub struct AssemblerView {
    pub total: u8,
    pub received: Seq<bool>,
    pub frags: Seq<Seq<u8>>,
}

/// Number of `true` entries among the first `k` of `s`.
pub open spec fn count_true(s: Seq<bool>, k: int) -> nat
    decreases k,
{
    if k <= 0 { 0 } else { count_true(s, k - 1) + if s[k - 1] { 1nat } else { 0nat } }
}

/// The fragments `0..k` joined in frame order.
pub open spec fn concat_frags(frags: Seq<Seq<u8>>, k: int) -> Seq<u8>
    decreases k,
{
    if k <= 0 { Seq::empty() } else { concat_frags(frags, k - 1) + frags[k - 1] }
}

/// Frames `0..total` have all arrived.
pub open spec fn all_received(received: Seq<bool>, total: u8) -> bool {
    forall|i: int| 0 <= i < total ==> #[trigger] received[i]
}

/// The empty collector state for a set of `total` frames.
pub open spec fn assembler_reset(total: u8) -> AssemblerView {
    AssemblerView {
        total,
        received: Seq::new(MF_MAX_FRAMES as nat, |i: int| false),
        frags: Seq::new(MF_MAX_FRAMES as nat, |i: int| Seq::<u8>::empty()),
    }
}

/// What receiving fragment `d` (of decoded length `len`) does: the next
/// collector state, and, for a newly stored frame, the number of frames of
/// the set received so far together with the reassembled payload once the
/// set is complete. Malformed fragments and repeated frames give `None`.
pub open spec fn assembler_accept(a: AssemblerView, d: Seq<u8>, len: nat) -> (AssemblerView, Option<(u8, Option<Seq<u8>>)>) {
    let frame = d[0] as int;
    let total = d[1];
    let frag_len = d[2] as int;
    if frag_len + 3 > len {
        (a, None)
    } else {
        let a1 = if a.total == 0 || a.total != total { assembler_reset(total) } else { a };
        if a1.received[frame] {
            (a1, None)
        } else {
            let a2 = AssemblerView {
                received: a1.received.update(frame, true),
                frags: a1.frags.update(frame, d.subrange(3, 3 + frag_len)),
                ..a1
            };
            let cnt = count_true(a2.received, total as int) as u8;
            if all_received(a2.received, total) {
                (AssemblerView { total: 0, ..a2 }, Some((cnt, Some(concat_frags(a2.frags, total as int)))))
            } else {
                (a2, Some((cnt, None)))
            }
        }
    }
}

impl View for FrameAssembler {
    type V = AssemblerView;

    closed spec fn view(&self) -> AssemblerView {
        AssemblerView {
            total: self.total,
            received: self.received@,
            frags: Seq::new(MF_MAX_FRAMES as nat, |i: int|
                self.buf@.subrange(i * MF_SLOT_SIZE, i * MF_SLOT_SIZE + self.frag_size@[i])),
        }
    }
}

impl FrameAssembler {
    /// The collector's internal consistency: every stored fragment fits its slot.
    pub closed spec fn wf(&self) -> bool {
        forall|i: int| 0 <= i < MF_MAX_FRAMES ==> #[trigger] self.frag_size@[i] <= MF_SLOT_SIZE
    }

    /// An empty collector.
    pub fn new() -> (a: Self)
        ensures
            a.wf(),
            a@ == assembler_reset(0),
    {
        let a = FrameAssembler { buf: [0u8; 10240], received: [false; 40], frag_size: [0u16; 40], total: 0 };
        assert(a@.received =~= assembler_reset(0).received);
        assert forall|i: int| 0 <= i < MF_MAX_FRAMES implies #[trigger] a@.frags[i] == assembler_reset(0).frags[i] by {
            assert(a@.frags[i] =~= Seq::<u8>::empty());
        }
        assert(a@.frags =~= assembler_reset(0).frags);
        a
    }

    /// Process one multi-frame fragment (see [`assembler_accept`]).
    pub fn accept(&mut self, d: &[u8], len: usize) -> (r: Option<(u8, Option<Vec<u8>>)>)
        requires
            old(self).wf(),
            len <= d@.len(),
            d@.len() >= 3,
            d@[0] < d@[1],
            d@[1] <= MF_MAX_FRAMES,
        ensures
            final(self).wf(),
            final(self)@ == assembler_accept(old(self)@, d@, len as nat).0,
            match assembler_accept(old(self)@, d@, len as nat).1 {
                None => r is None,
                Some((cnt, None)) => r == Some((cnt, None::<Vec<u8>>)),
                Some((cnt, Some(p))) => (r matches Some((c, Some(v))) && c == cnt && v@ == p),
            },
    {
        let frame_num = d[0] as usize;
        let total = d[1];
        let frag_len = d[2] as usize;
        if frag_len + 3 > len {
            return None;
        }
        let ghost a0 = self@;
        if self.total == 0 || self.total != total {
            self.total = total;
            let mut i: usize = 0;
            while i < MF_MAX_FRAMES
                invariant
                    i <= MF_MAX_FRAMES,
                    self.total == total,
                    forall|t: int| 0 <= t < i ==> !self.received@[t] && self.frag_size@[t] == 0,
                decreases MF_MAX_FRAMES - i,
            {
                self.received[i] = false;
                self.frag_size[i] = 0;
                i = i + 1;
            }
            assert(self@.received =~= assembler_reset(total).received);
            assert forall|i: int| 0 <= i < MF_MAX_FRAMES implies #[trigger] self@.frags[i] == assembler_reset(total).frags[i] by {
                assert(self@.frags[i] =~= Seq::<u8>::empty());
            }
            assert(self@.frags =~= assembler_reset(total).frags);
            assert(self@ == assembler_reset(total));
        }
        let ghost a1 = self@;
        assert(a1 == (if a0.total == 0 || a0.total != total { assembler_reset(total) } else { a0 }));
        if self.received[frame_num] {
            return None;
        }
        let slot_offset = frame_num * MF_SLOT_SIZE;
        let ghost buf0 = self.buf@;
        let ghost sizes0 = self.frag_size@;
        let mut j: usize = 0;
        while j < frag_len
            invariant
                frame_num < MF_MAX_FRAMES,
                slot_offset == frame_num * MF_SLOT_SIZE,
                frag_len < 256,
                frag_len + 3 <= d@.len(),
                j <= frag_len,
                self.received@ == a1.received,
                self.total == a1.total,
                self.frag_size@ == sizes0,
                self.wf(),
                a1.frags == Seq::new(MF_MAX_FRAMES as nat, |i: int|
                    buf0.subrange(i * MF_SLOT_SIZE, i * MF_SLOT_SIZE + sizes0[i])),
                self.buf@.len() == buf0.len(),
                forall|t: int| slot_offset <= t < slot_offset + j ==> #[trigger] self.buf@[t] == d@[3 + t - slot_offset],
                forall|t: int| 0 <= t < MF_BUF_SIZE && !(slot_offset <= t < slot_offset + j) ==> #[trigger] self.buf@[t] == buf0[t],
            decreases frag_len - j,
        {
            self.buf[slot_offset + j] = d[3 + j];
            j = j + 1;
        }
        self.frag_size[frame_num] = frag_len as u16;
        self.received[frame_num] = true;
        let ghost a2 = AssemblerView {
            received: a1.received.update(frame_num as int, true),
            frags: a1.frags.update(frame_num as int, d@.subrange(3, 3 + frag_len)),
            ..a1
        };
        proof {
            assert forall|i: int| 0 <= i < MF_MAX_FRAMES implies #[trigger] self@.frags[i] == a2.frags[i] by {
                if i == frame_num {
                    assert(self@.frags[i] =~= d@.subrange(3, 3 + frag_len));
                } else {
                    let lo = i * MF_SLOT_SIZE;
                    let sz = sizes0[i] as int;
                    assert(self.frag_size@[i] == sizes0[i]);
                    assert forall|t: int| lo <= t < lo + sz implies self.buf@[t] == buf0[t] by {
                        if i < frame_num {
                            assert(t < slot_offset) by (nonlinear_arith)
                                requires lo == i * 256, t < lo + sz, sz <= 256, i < frame_num, slot_offset == frame_num * 256;
                        } else {
                            assert(t >= slot_offset + 256) by (nonlinear_arith)
                                requires lo == i * 256, lo <= t, i > frame_num, slot_offset == frame_num * 256;
                        }
                        assert(0 <= t < MF_BUF_SIZE) by (nonlinear_arith)
                            requires lo == i * 256, lo <= t < lo + sz, sz <= 256, 0 <= i < 40;
                    }
                    assert(self@.frags[i] =~= buf0.subrange(lo, lo + sz));
                }
            }
            assert(self@.received =~= a2.received);
            assert(self@.frags =~= a2.frags);
        }

        // count the received frames of the set
        let mut cnt: u8 = 0;
        let mut all = true;
        let mut i: usize = 0;
        while i < total as usize
            invariant
                total <= MF_MAX_FRAMES,
                i <= total,
                self@ == a2,
                cnt as nat == count_true(a2.received, i as int),
                cnt <= i,
                all == (forall|t: int| 0 <= t < i ==> #[trigger] a2.received[t]),
            decreases total - i,
        {
            if self.received[i] {
                cnt = cnt + 1;
            } else {
                all = false;
            }
            i = i + 1;
        }
        if !all {
            assert(!all_received(a2.received, total));
            return Some((cnt, None));
        }

        let mut assembled: Vec<u8> = Vec::new();
        let mut f: usize = 0;
        while f < total as usize
            invariant
                total <= MF_MAX_FRAMES,
                f <= total,
                self@ == a2,
                self.wf(),
                assembled@ == concat_frags(a2.frags, f as int),
            decreases total - f,
        {
            let sl = f * MF_SLOT_SIZE;
            let sz = self.frag_size[f] as usize;
            let mut k: usize = 0;
            while k < sz
                invariant
                    f < MF_MAX_FRAMES,
                    sl == f * MF_SLOT_SIZE,
                    sz == self.frag_size@[f as int],
                    sz <= MF_SLOT_SIZE,
                    k <= sz,
                    assembled@ == concat_frags(a2.frags, f as int) + self.buf@.subrange(sl as int, sl + k),
                decreases sz - k,
            {
                assembled.push(self.buf[sl + k]);
                k = k + 1;
                assert(self.buf@.subrange(sl as int, sl + k) =~= self.buf@.subrange(sl as int, sl + k - 1).push(self.buf@[sl + k - 1]));
            }
            assert(self@.frags[f as int] == self.buf@.subrange(sl as int, sl + sz));
            f = f + 1;
        }
        self.total = 0;
        Some((cnt, Some(assembled)))
    }
}

// ─── Sending ───────────────────────────────────────────────────────

/// Bytes per fragment when `len` bytes are split over `n` frames: ⌈len / n⌉.
pub open spec fn qr_frag_size(len: nat, n: nat) -> nat {
    ((len + n - 1) / (n as int)) as nat
}

/// Length of fragment `k` of `len` bytes split over `n` frames (0 when the
/// balanced split leaves nothing for that frame).
pub open spec fn qr_frag_len(len: nat, n: nat, k: nat) -> nat {
    let b = qr_frag_size(len, n);
    let off = k * b;
    if off >= len { 0 } else if len - off < b { (len - off) as nat } else { b }
}

/// Fragment `k` of `data` split over `n` frames.
pub open spec fn qr_fragment(data: Seq<u8>, n: nat, k: nat) -> Seq<u8> {
    let off = (k * qr_frag_size(data.len(), n)) as int;
    let f = qr_frag_len(data.len(), n, k);
    if f == 0 { Seq::empty() } else { data.subrange(off, off + f) }
}

/// Frame `k` of `n` carrying `data`: the three header bytes, the fragment,
/// and zero padding up to a 20-byte fragment (so that short frames still
/// make a readable QR code).
pub open spec fn signed_qr_frame_spec(data: Seq<u8>, k: nat, n: nat) -> Seq<u8> {
    let f = qr_frag_len(data.len(), n, k);
    let body = seq![k as u8, n as u8, f as u8] + qr_fragment(data, n, k);
    if f < 20 { body + Seq::new((20 - f) as nat, |i: int| 0u8) } else { body }
}

/// Build frame `frame` of `nframes` of the signed output `buf[..len]`, as
/// displayed while cycling the signed QR. `None` when that frame carries no
/// bytes (nothing is drawn then).
pub fn signed_qr_frame(buf: &[u8], len: usize, frame: u8, nframes: u8) -> (r: Option<Vec<u8>>)
    requires
        len <= buf@.len(),
        frame < nframes,
        len + nframes <= usize::MAX,
        qr_frag_len(len as nat, nframes as nat, frame as nat) <= 131,
    ensures
        r is None <==> qr_frag_len(len as nat, nframes as nat, frame as nat) == 0,
        r matches Some(v) ==> v@ == signed_qr_frame_spec(buf@.take(len as int), frame as nat, nframes as nat),
{
    let ghost data = buf@.take(len as int);
    let n_frames = nframes as usize;
    let balanced = (len + n_frames - 1) / n_frames;
    assert(balanced == qr_frag_size(len as nat, nframes as nat));
    proof {
        assert(frame as int * balanced <= len + n_frames) by (nonlinear_arith)
            requires balanced == (len + n_frames - 1) / (n_frames as int), n_frames >= 1, frame < n_frames, len >= 0;
    }
    let offset = (frame as usize) * balanced;
    let remaining = if len > offset { len - offset } else { 0 };
    let frag_len = if remaining < balanced { remaining } else { balanced };
    assert(frag_len == qr_frag_len(len as nat, nframes as nat, frame as nat));
    if frag_len == 0 {
        return None;
    }
    let mut out: Vec<u8> = Vec::new();
    out.push(frame);
    out.push(nframes);
    out.push(frag_len as u8);
    let mut i: usize = 0;
    while i < frag_len
        invariant
            offset + frag_len <= len,
            len <= buf@.len(),
            data == buf@.take(len as int),
            i <= frag_len,
            out@ =~= seq![frame, nframes, frag_len as u8] + data.subrange(offset as int, offset + i),
        decreases frag_len - i,
    {
        out.push(buf[offset + i]);
        i = i + 1;
    }
    let mut p: usize = frag_len;
    while p < 20
        invariant
            frag_len <= p,
            p <= 20 || p == frag_len,
            out@ =~= seq![frame, nframes, frag_len as u8] + data.subrange(offset as int, offset + frag_len)
                + Seq::new((p - frag_len) as nat, |i: int| 0u8),
        decreases 20 - p,
    {
        out.push(0);
        p = p + 1;
    }
    assert(offset as int == (frame as nat * qr_frag_size(data.len(), nframes as nat)) as int);
    assert(out@ =~= signed_qr_frame_spec(data, frame as nat, nframes as nat));
    Some(out)
}

/// One tick of the signed-QR display loop: while a multi-frame signed output
/// is shown in automatic mode, advance to the next frame every 2000 ticks
/// (frames meant for another device) or every 400 ticks (for a phone
/// wallet). Gives the frame to show now, if any.
pub fn cycle_signed_qr_step(showing_qr: bool, nframes: u8, manual: bool, via_density: bool,
    idle_ticks: u32, frame: u8) -> (next: Option<u8>)
    requires
        frame < u8::MAX,
    ensures
        next == if showing_qr && nframes > 1 && !manual
            && idle_ticks % (if via_density { 2000u32 } else { 400u32 }) == 0 {
            Some(((frame + 1) % (nframes as int)) as u8)
        } else {
            None::<u8>
        },
{
    if !(showing_qr && nframes > 1 && !manual) {
        return None;
    }
    let cycle_interval: u32 = if via_density { 2000 } else { 400 };
    if idle_ticks % cycle_interval != 0 {
        return None;
    }
    Some((frame + 1) % nframes)
}

// ─── Transport law ─────────────────────────────────────────────────

/// Feed `frames` in order to a collector in state `a`: the final state and
/// the outcome of the last frame.
pub open spec fn feed_frames(a: AssemblerView, frames: Seq<Seq<u8>>) -> (AssemblerView, Option<(u8, Option<Seq<u8>>)>)
    decreases frames.len(),
{
    if frames.len() == 0 {
        (a, None)
    } else {
        let prev = feed_frames(a, frames.drop_last());
        assembler_accept(prev.0, frames.last(), frames.last().len())
    }
}

/// The `n` frames the device cycles through for `data`.
pub open spec fn signed_qr_frames(data: Seq<u8>, n: nat) -> Seq<Seq<u8>> {
    Seq::new(n, |k: int| signed_qr_frame_spec(data, k as nat, n))
}

/// The collector after the first `k` frames of `data` arrived in order.
pub open spec fn collected(data: Seq<u8>, n: nat, k: int) -> AssemblerView {
    AssemblerView {
        total: n as u8,
        received: Seq::new(MF_MAX_FRAMES as nat, |i: int| i < k),
        frags: Seq::new(MF_MAX_FRAMES as nat, |i: int| if i < k { qr_fragment(data, n, i as nat) } else { Seq::empty() }),
    }
}

proof fn lemma_count_prefix(k: int, m: int)
    requires
        0 <= m <= MF_MAX_FRAMES,
        0 <= k,
    ensures
        count_true(Seq::new(MF_MAX_FRAMES as nat, |i: int| i < k), m) == if m < k { m } else { k },
    decreases m,
{
    if m > 0 {
        lemma_count_prefix(k, m - 1);
    }
}

proof fn lemma_frame_shape(data: Seq<u8>, n: nat, k: nat)
    requires
        2 <= n <= MF_MAX_FRAMES,
        k < n,
        qr_frag_size(data.len(), n) <= 131,
    ensures
        signed_qr_frame_spec(data, k, n).len() >= 3,
        signed_qr_frame_spec(data, k, n)[0] == k as u8,
        signed_qr_frame_spec(data, k, n)[1] == n as u8,
        signed_qr_frame_spec(data, k, n)[2] as nat == qr_frag_len(data.len(), n, k),
        qr_frag_len(data.len(), n, k) + 3 <= signed_qr_frame_spec(data, k, n).len(),
        signed_qr_frame_spec(data, k, n).subrange(3, 3 + qr_frag_len(data.len(), n, k) as int) == qr_fragment(data, n, k),
{
    let f = qr_frag_len(data.len(), n, k);
    let b = qr_frag_size(data.len(), n);
    let off = k * b;
    assert(f <= b);
    if off < data.len() {
        assert(off + f <= data.len());
    }
    let body = seq![k as u8, n as u8, f as u8] + qr_fragment(data, n, k);
    assert(body.subrange(3, 3 + f as int) =~= qr_fragment(data, n, k));
    let fr = signed_qr_frame_spec(data, k, n);
    assert(fr.subrange(3, 3 + f as int) =~= qr_fragment(data, n, k));
}

proof fn lemma_concat_fragments(data: Seq<u8>, n: nat, k: int)
    requires
        1 <= n <= MF_MAX_FRAMES,
        0 <= k <= n,
        (n - 1) * qr_frag_size(data.len(), n) < data.len(),
        qr_frag_size(data.len(), n) * n >= data.len(),
    ensures
        concat_frags(Seq::new(MF_MAX_FRAMES as nat, |i: int| if i < n { qr_fragment(data, n, i as nat) } else { Seq::empty() }), k)
            == data.subrange(0, if k * qr_frag_size(data.len(), n) < data.len() { k * qr_frag_size(data.len(), n) } else { data.len() as int }),
    decreases k,
{
    let frags = Seq::new(MF_MAX_FRAMES as nat, |i: int| if i < n { qr_fragment(data, n, i as nat) } else { Seq::empty() });
    let b = qr_frag_size(data.len(), n) as int;
    let len = data.len() as int;
    if k == 0 {
        assert(data.subrange(0, 0) =~= Seq::<u8>::empty());
    } else {
        assert((k - 1) * b < len && k * b == (k - 1) * b + b) by (nonlinear_arith)
            requires (n - 1) * b < len, k >= 1, b >= 0, k <= n;
        lemma_concat_fragments(data, n, k - 1);
        let prev_end = (k - 1) * b;
        let f = qr_frag_len(data.len(), n, (k - 1) as nat) as int;
        assert(frags[k - 1] == qr_fragment(data, n, (k - 1) as nat));
        let end = if k * b < len { k * b } else { len };
        assert(prev_end + f == end);
        assert(data.subrange(0, prev_end) + data.subrange(prev_end, prev_end + f) =~= data.subrange(0, end));
    }
}

/// What the device sends, the scanner gets back: feeding the frames of a
/// signed output, in order, to an empty collector completes the set with
/// the last frame, reports every frame received, and reassembles exactly the
/// bytes that were sent. This holds whenever the balanced split gives every frame
/// at least one byte and a frame's fragment fits the 134-byte frame buffer.
pub proof fn lemma_frames_reassemble(data: Seq<u8>, n: nat)
    requires
        2 <= n <= MF_MAX_FRAMES,
        qr_frag_size(data.len(), n) <= 131,
        (n - 1) * qr_frag_size(data.len(), n) < data.len(),
    ensures
        feed_frames(assembler_reset(0), signed_qr_frames(data, n)).1 == Some((n as u8, Some(data))),
{
    let b = qr_frag_size(data.len(), n);
    let len = data.len();
    assert(b * n >= len) by (nonlinear_arith)
        requires b == (len + n - 1) / (n as int), n >= 1;
    lemma_feed_prefix(data, n, (n - 1) as int);
    let frames = signed_qr_frames(data, n);
    assert(frames.drop_last() =~= signed_qr_frames(data, n).take(n - 1));
    let last = frames.last();
    lemma_frame_shape(data, n, (n - 1) as nat);
    let a = collected(data, n, n - 1);
    assert(feed_frames(assembler_reset(0), frames.drop_last()).0 == a);
    assert(feed_frames(assembler_reset(0), frames)
        == assembler_accept(feed_frames(assembler_reset(0), frames.drop_last()).0, last, last.len()));
    assert(last == signed_qr_frame_spec(data, (n - 1) as nat, n));
    lemma_nonempty_frames(data, n, (n - 1) as nat);
    let res = assembler_accept(a, last, last.len());
    let a2 = AssemblerView {
        received: a.received.update(n - 1, true),
        frags: a.frags.update(n - 1, last.subrange(3, 3 + qr_frag_len(len, n, (n - 1) as nat) as int)),
        ..a
    };
    assert(a2.received =~= Seq::new(MF_MAX_FRAMES as nat, |i: int| i < n));
    assert(a2.frags =~= Seq::new(MF_MAX_FRAMES as nat, |i: int| if i < n { qr_fragment(data, n, i as nat) } else { Seq::empty() }));
    lemma_count_prefix(n as int, n as int);
    assert(all_received(a2.received, n as u8));
    assert(count_true(a2.received, n as int) == n);
    lemma_concat_fragments(data, n, n as int);
    assert(n * b >= len) by (nonlinear_arith)
        requires b * n >= len;
    assert(data.subrange(0, len as int) =~= data);
    assert(concat_frags(a2.frags, n as int) == data);
    assert(res.1 == Some((n as u8, Some(concat_frags(a2.frags, n as int)))));
}

proof fn lemma_nonempty_frames(data: Seq<u8>, n: nat, k: nat)
    requires
        2 <= n <= MF_MAX_FRAMES,
        k < n,
        (n - 1) * qr_frag_size(data.len(), n) < data.len(),
    ensures
        qr_frag_len(data.len(), n, k) > 0,
{
    let b = qr_frag_size(data.len(), n) as int;
    assert(k * b <= (n - 1) * b) by (nonlinear_arith)
        requires k <= n - 1, b >= 0;
    assert(b > 0) by (nonlinear_arith)
        requires (n - 1) * b < data.len(), b == (data.len() + n - 1) / (n as int), n >= 2;
}

proof fn lemma_feed_prefix(data: Seq<u8>, n: nat, k: int)
    requires
        2 <= n <= MF_MAX_FRAMES,
        1 <= k <= n - 1,
        qr_frag_size(data.len(), n) <= 131,
        (n - 1) * qr_frag_size(data.len(), n) < data.len(),
    ensures
        feed_frames(assembler_reset(0), signed_qr_frames(data, n).take(k)).0 == collected(data, n, k),
        feed_frames(assembler_reset(0), signed_qr_frames(data, n).take(k)).1 == Some((k as u8, None::<Seq<u8>>)),
    decreases k,
{
    let frames = signed_qr_frames(data, n).take(k);
    let fr = frames.last();
    lemma_frame_shape(data, n, (k - 1) as nat);
    lemma_nonempty_frames(data, n, (k - 1) as nat);
    let f = qr_frag_len(data.len(), n, (k - 1) as nat) as int;
    let prev = if k == 1 {
        assert(frames.drop_last() =~= Seq::<Seq<u8>>::empty());
        assembler_reset(0)
    } else {
        lemma_feed_prefix(data, n, k - 1);
        assert(frames.drop_last() =~= signed_qr_frames(data, n).take(k - 1));
        collected(data, n, k - 1)
    };
    assert(feed_frames(assembler_reset(0), frames.drop_last()).0 == prev);
    let a1 = if prev.total == 0 || prev.total != n as u8 { assembler_reset(n as u8) } else { prev };
    if k == 1 {
        assert(a1 == assembler_reset(n as u8));
    } else {
        assert(a1 == collected(data, n, k - 1));
    }
    assert(!a1.received[k - 1]);
    let a2 = AssemblerView {
        received: a1.received.update(k - 1, true),
        frags: a1.frags.update(k - 1, fr.subrange(3, 3 + f)),
        ..a1
    };
    assert(a2.received =~= collected(data, n, k).received);
    assert(a2.frags =~= collected(data, n, k).frags);
    lemma_count_prefix(k, n as int);
    assert(!a2.received[k]);
    assert(!all_received(a2.received, n as u8));
}


// ─── Frames in any order ───────────────────────────────────────────

/// Frame `f` of a set whose fragments are `payloads`: index, frame count,
/// fragment length, fragment.
pub open spec fn frame_of(payloads: Seq<Seq<u8>>, f: int) -> Seq<u8> {
    seq![f as u8, payloads.len() as u8, payloads[f].len() as u8] + payloads[f]
}

/// The frames of the set delivered in the order `order` (frame indices,
/// repeats allowed).
pub open spec fn frames_in(payloads: Seq<Seq<u8>>, order: Seq<int>) -> Seq<Seq<u8>> {
    Seq::new(order.len(), |i: int| frame_of(payloads, order[i]))
}

/// The outcome of a delivery hands out no payload.
pub open spec fn no_payload(o: Option<(u8, Option<Seq<u8>>)>) -> bool {
    match o {
        Some((_, Some(_))) => false,
        _ => true,
    }
}

/// Frame `f` is among the first `k` deliveries of `order`.
pub open spec fn seen(order: Seq<int>, k: int, f: int) -> bool
    decreases k,
{
    if k <= 0 { false } else { order[k - 1] == f || seen(order, k - 1, f) }
}

/// Every frame of a set of `t` has come among the first `k` deliveries.
pub open spec fn all_seen(order: Seq<int>, k: int, t: int) -> bool {
    forall|f: int| 0 <= f < t ==> #[trigger] seen(order, k, f)
}

/// A well-formed set: 2 to 40 fragments of at most 255 bytes, delivered as
/// frame indices below the count.
pub open spec fn set_ok(payloads: Seq<Seq<u8>>, order: Seq<int>) -> bool {
    &&& 2 <= payloads.len() <= MF_MAX_FRAMES
    &&& forall|f: int| 0 <= f < payloads.len() ==> #[trigger] payloads[f].len() <= 255
    &&& forall|i: int| 0 <= i < order.len() ==> 0 <= #[trigger] order[i] < payloads.len()
}

/// The collector after the first `k` deliveries, while the set is not yet
/// complete: collecting this set (once anything came), holding exactly the
/// frames seen, each with its own fragment.
pub open spec fn collecting(payloads: Seq<Seq<u8>>, order: Seq<int>, k: int, a: AssemblerView) -> bool {
    let t = payloads.len() as int;
    &&& (k > 0 ==> a.total == t)
    &&& (k == 0 ==> a.total == 0)
    &&& a.received.len() == MF_MAX_FRAMES
    &&& a.frags.len() == MF_MAX_FRAMES
    &&& forall|f: int| 0 <= f < MF_MAX_FRAMES ==> #[trigger] a.received[f] == (f < t && seen(order, k, f))
    &&& forall|f: int| 0 <= f < t && seen(order, k, f) ==> #[trigger] a.frags[f] == payloads[f]
}

proof fn lemma_concat_frags_eq(x: Seq<Seq<u8>>, y: Seq<Seq<u8>>, k: int)
    requires
        0 <= k <= x.len(),
        k <= y.len(),
        forall|f: int| 0 <= f < k ==> #[trigger] x[f] == y[f],
    ensures
        concat_frags(x, k) == concat_frags(y, k),
    decreases k,
{
    if k > 0 {
        lemma_concat_frags_eq(x, y, k - 1);
    }
}

proof fn lemma_count_all(s: Seq<bool>, k: int)
    requires
        0 <= k <= s.len(),
        forall|i: int| 0 <= i < k ==> #[trigger] s[i],
    ensures
        count_true(s, k) == k,
    decreases k,
{
    if k > 0 {
        lemma_count_all(s, k - 1);
    }
}

proof fn lemma_seen_mono(order: Seq<int>, k: int, m: int, f: int)
    requires
        0 <= k <= m,
        seen(order, k, f),
    ensures
        seen(order, m, f),
    decreases m - k,
{
    if k < m {
        lemma_seen_mono(order, k, m - 1, f);
    }
}

/// One delivery of the set's frame `order[k]` to a collector that is
/// collecting after `k` deliveries (the set not complete yet).
proof fn lemma_deliver_step(payloads: Seq<Seq<u8>>, order: Seq<int>, k: int, a: AssemblerView)
    requires
        set_ok(payloads, order),
        0 <= k < order.len(),
        collecting(payloads, order, k, a),
        !all_seen(order, k, payloads.len() as int),
    ensures
        ({
            let t = payloads.len() as int;
            let r = assembler_accept(a, frame_of(payloads, order[k]), frame_of(payloads, order[k]).len());
            if all_seen(order, k + 1, t) {
                r.1 == Some((t as u8, Some(concat_frags(payloads, t))))
            } else {
                &&& collecting(payloads, order, k + 1, r.0)
                &&& no_payload(r.1)
            }
        }),
{
    let t = payloads.len() as int;
    let f = order[k];
    let d = frame_of(payloads, f);
    assert(d[0] == f as u8 && d[1] == t as u8 && d[2] == payloads[f].len() as u8);
    assert(d.subrange(3, 3 + payloads[f].len() as int) =~= payloads[f]);
    let a1 = if a.total == 0 || a.total != d[1] { assembler_reset(d[1]) } else { a };
    assert forall|g: int| 0 <= g < MF_MAX_FRAMES implies #[trigger] a1.received[g] == (g < t && seen(order, k, g)) by {
        if k == 0 {
            assert(!seen(order, 0, g));
        }
    }
    assert(a1.total == t);
    assert forall|g: int| 0 <= g < t && seen(order, k, g) implies #[trigger] a1.frags[g] == payloads[g] by {
        if k == 0 {
            assert(!seen(order, 0, g));
        }
    }
    assert forall|g: int| #[trigger] seen(order, k + 1, g) == (g == f || seen(order, k, g)) by {}
    let r = assembler_accept(a, d, d.len());
    if a1.received[f] {
        assert(seen(order, k, f));
        assert forall|g: int| 0 <= g < t implies #[trigger] seen(order, k + 1, g) == seen(order, k, g) by {
            assert(seen(order, k + 1, g) == (g == f || seen(order, k, g)));
        }
        assert(r.0 == a1);
        let g = choose|g: int| 0 <= g < t && !#[trigger] seen(order, k, g);
        assert(!seen(order, k + 1, g));
    } else {
        let a2 = AssemblerView {
            received: a1.received.update(f, true),
            frags: a1.frags.update(f, d.subrange(3, 3 + payloads[f].len() as int)),
            ..a1
        };
        assert forall|g: int| 0 <= g < MF_MAX_FRAMES implies #[trigger] a2.received[g] == (g < t && seen(order, k + 1, g)) by {
            assert(seen(order, k + 1, g) == (g == f || seen(order, k, g)));
        }
        assert forall|g: int| 0 <= g < t && seen(order, k + 1, g) implies #[trigger] a2.frags[g] == payloads[g] by {
            assert(seen(order, k + 1, g) == (g == f || seen(order, k, g)));
        }
        if all_seen(order, k + 1, t) {
            assert forall|g: int| 0 <= g < t implies #[trigger] a2.received[g] by {
                assert(seen(order, k + 1, g));
            }
            assert(all_received(a2.received, t as u8));
            lemma_count_all(a2.received, t);
            lemma_concat_frags_eq(a2.frags, payloads, t);
        } else {
            let g = choose|g: int| 0 <= g < t && !#[trigger] seen(order, k + 1, g);
            assert(!a2.received[g]);
            assert(!all_received(a2.received, t as u8));
        }
    }
}

/// Frames in any order, repeats allowed: when a set of fragments is
/// delivered to an empty collector frame by frame in any order, with repeats,
/// and the last delivery brings the last missing frame, then no delivery
/// before the last hands out a payload, and the last one hands out all the
/// frames (their count) and the fragments joined in frame order, whatever the
/// order of arrival.
pub proof fn lemma_any_order_reassembles(payloads: Seq<Seq<u8>>, order: Seq<int>)
    requires
        set_ok(payloads, order),
        order.len() >= 1,
        all_seen(order, order.len() as int, payloads.len() as int),
        !all_seen(order, order.len() - 1, payloads.len() as int),
    ensures
        feed_frames(assembler_reset(0), frames_in(payloads, order)).1
            == Some((payloads.len() as u8, Some(concat_frags(payloads, payloads.len() as int)))),
        forall|k: int| 1 <= k < order.len() ==>
            no_payload(#[trigger] feed_frames(assembler_reset(0), frames_in(payloads, order).take(k)).1),
{
    let t = payloads.len() as int;
    let fr = frames_in(payloads, order);
    let n = order.len() as int;
    lemma_collecting_run(payloads, order, n - 1);
    let prev = feed_frames(assembler_reset(0), fr.take(n - 1));
    assert(fr.take(n).drop_last() =~= fr.take(n - 1));
    assert(fr.take(n) =~= fr);
    assert(fr.last() == frame_of(payloads, order[n - 1]));
    lemma_deliver_step(payloads, order, n - 1, prev.0);
    assert forall|k: int| 1 <= k < order.len() implies
        no_payload(#[trigger] feed_frames(assembler_reset(0), fr.take(k)).1) by {
        let g = choose|g: int| 0 <= g < t && !#[trigger] seen(order, n - 1, g);
        if seen(order, k, g) {
            lemma_seen_mono(order, k, n - 1, g);
        }
        lemma_collecting_run(payloads, order, k);
    }
}

/// While the set is incomplete the collector is collecting, and no delivery
/// has handed out a payload.
proof fn lemma_collecting_run(payloads: Seq<Seq<u8>>, order: Seq<int>, k: int)
    requires
        set_ok(payloads, order),
        0 <= k < order.len(),
        !all_seen(order, k, payloads.len() as int),
    ensures
        collecting(payloads, order, k, feed_frames(assembler_reset(0), frames_in(payloads, order).take(k)).0),
        k >= 1 ==> no_payload(feed_frames(assembler_reset(0), frames_in(payloads, order).take(k)).1),
    decreases k,
{
    let t = payloads.len() as int;
    let fr = frames_in(payloads, order);
    if k == 0 {
        assert(fr.take(0) =~= Seq::<Seq<u8>>::empty());
        let a = assembler_reset(0);
        assert forall|f: int| 0 <= f < MF_MAX_FRAMES implies #[trigger] a.received[f] == (f < t && seen(order, 0, f)) by {}
    } else {
        assert(!all_seen(order, k - 1, t)) by {
            let g = choose|g: int| 0 <= g < t && !#[trigger] seen(order, k, g);
            assert(!seen(order, k - 1, g));
        }
        lemma_collecting_run(payloads, order, k - 1);
        let prev = feed_frames(assembler_reset(0), fr.take(k - 1));
        assert(fr.take(k).drop_last() =~= fr.take(k - 1));
        assert(fr.take(k).last() == frame_of(payloads, order[k - 1]));
        lemma_deliver_step(payloads, order, k - 1, prev.0);
    }
}

} // verus!
