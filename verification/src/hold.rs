//! Hold-to-confirm gestures: destructive actions (formatting the SD card,
//! deleting a file from it) run only after their red button was held,
//! without a break, for four seconds. The touch panel is polled every 50 ms.

use vstd::prelude::*;

verus! {

/// Milliseconds between two polls of the touch panel.
pub const HOLD_POLL_MS: u32 = 50;

/// Milliseconds the button must be held.
pub const HOLD_CONFIRM_MS: u32 = 4000;

/// An inclusive screen rectangle.
#[derive(Clone, Copy)]
pub struct Rect {
    pub x0: u16,
    pub x1: u16,
    pub y0: u16,
    pub y1: u16,
}

/// The point lies in the rectangle.
pub open spec fn in_rect(r: Rect, x: u16, y: u16) -> bool {
    r.x0 <= x && x <= r.x1 && r.y0 <= y && y <= r.y1
}

fn rect_contains(r: &Rect, x: u16, y: u16) -> (b: bool)
    ensures
        b == in_rect(*r, x, y),
{
    r.x0 <= x && x <= r.x1 && r.y0 <= y && y <= r.y1
}

/// Where the buttons of a hold-to-confirm screen are.
#[derive(Clone, Copy)]
pub struct HoldLayout {
    /// The button to hold.
    pub button: Rect,
    /// Two cancel zones, each with whether a tap on it clicks.
    pub cancel_a: Rect,
    pub click_a: bool,
    pub cancel_b: Rect,
    pub click_b: bool,
    /// Width in pixels of the progress bar drawn over the button.
    pub bar: u32,
}

/// The card formatting screen: the red button (50..=270, 170..=214), and
/// the back (top left) and home (top right) buttons, which click.
pub open spec fn format_layout_spec() -> HoldLayout {
    HoldLayout {
        button: Rect { x0: 50, x1: 270, y0: 170, y1: 214 },
        cancel_a: Rect { x0: 0, x1: 40, y0: 0, y1: 40 },
        click_a: true,
        cancel_b: Rect { x0: 268, x1: u16::MAX, y0: 0, y1: 52 },
        click_b: true,
        bar: 200,
    }
}

/// The file deletion screen: the red button (170..=290, 180..=230), the
/// back button (silent) and the cancel button beside it (30..=150, which clicks).
pub open spec fn delete_layout_spec() -> HoldLayout {
    HoldLayout {
        button: Rect { x0: 170, x1: 290, y0: 180, y1: 230 },
        cancel_a: Rect { x0: 0, x1: 40, y0: 0, y1: 40 },
        click_a: false,
        cancel_b: Rect { x0: 30, x1: 150, y0: 180, y1: 230 },
        click_b: true,
        bar: 120,
    }
}

/// The card formatting screen (see [`format_layout_spec`]).
pub fn format_layout() -> (l: HoldLayout)
    ensures
        l == format_layout_spec(),
{
    HoldLayout {
        button: Rect { x0: 50, x1: 270, y0: 170, y1: 214 },
        cancel_a: Rect { x0: 0, x1: 40, y0: 0, y1: 40 },
        click_a: true,
        cancel_b: Rect { x0: 268, x1: u16::MAX, y0: 0, y1: 52 },
        click_b: true,
        bar: 200,
    }
}

/// The file deletion screen (see [`delete_layout_spec`]).
pub fn delete_layout() -> (l: HoldLayout)
    ensures
        l == delete_layout_spec(),
{
    HoldLayout {
        button: Rect { x0: 170, x1: 290, y0: 180, y1: 230 },
        cancel_a: Rect { x0: 0, x1: 40, y0: 0, y1: 40 },
        click_a: false,
        cancel_b: Rect { x0: 30, x1: 150, y0: 180, y1: 230 },
        click_b: true,
        bar: 120,
    }
}

/// Progress of a hold-to-confirm gesture.
#[derive(Clone, Copy)]
pub struct HoldGesture {
    /// Time the button has been held.
    pub held_ms: u32,
    /// The button has not been pressed yet.
    pub waiting_for_press: bool,
}

/// The outcome of one poll.
#[derive(Debug, Clone, Copy, PartialEq, Eq, Structural)]
pub enum HoldStep {
    /// Still waiting for the first press.
    Waiting,
    /// Held: `fill` pixels of the progress bar are drawn.
    Holding { fill: u32 },
    /// Held long enough: go ahead.
    Confirmed,
    /// Abandoned; `click` when a cancel button that clicks was tapped.
    Cancelled { click: bool },
}

/// A gesture that has not started.
pub open spec fn hold_fresh() -> HoldGesture {
    HoldGesture { held_ms: 0, waiting_for_press: true }
}

/// The touch is on the button to hold.
pub open spec fn on_hold_button(l: HoldLayout, t: Option<(u16, u16)>) -> bool {
    t matches Some((x, y)) && in_rect(l.button, x, y)
}

/// The gesture has ended.
pub open spec fn hold_ended(st: HoldStep) -> bool {
    st is Confirmed || st is Cancelled
}

/// One poll with touch `t` (the point, or `None` when nothing touches the
/// panel). A cancel zone ends the gesture at any time; leaving the button
/// after pressing it, or releasing it, cancels too.
pub open spec fn hold_step_spec(l: HoldLayout, h: HoldGesture, t: Option<(u16, u16)>) -> (HoldGesture, HoldStep) {
    match t {
        Some((x, y)) => {
            if in_rect(l.cancel_a, x, y) {
                (h, HoldStep::Cancelled { click: l.click_a })
            } else if in_rect(l.cancel_b, x, y) {
                (h, HoldStep::Cancelled { click: l.click_b })
            } else if in_rect(l.button, x, y) {
                let held = h.held_ms + HOLD_POLL_MS;
                let h2 = HoldGesture { held_ms: held as u32, waiting_for_press: false };
                if held >= HOLD_CONFIRM_MS {
                    (h2, HoldStep::Confirmed)
                } else {
                    let f = held * l.bar / (HOLD_CONFIRM_MS as int);
                    (h2, HoldStep::Holding { fill: (if f < l.bar { f } else { l.bar as int }) as u32 })
                }
            } else if !h.waiting_for_press {
                (h, HoldStep::Cancelled { click: false })
            } else {
                (h, HoldStep::Waiting)
            }
        },
        None => if !h.waiting_for_press { (h, HoldStep::Cancelled { click: false }) } else { (h, HoldStep::Waiting) },
    }
}

impl HoldGesture {
    /// A gesture that has not started.
    pub fn new() -> (h: Self)
        ensures
            h == hold_fresh(),
    {
        HoldGesture { held_ms: 0, waiting_for_press: true }
    }

    /// One poll of the gesture (see [`hold_step_spec`]).
    pub fn step(&mut self, l: &HoldLayout, touch: Option<(u16, u16)>) -> (st: HoldStep)
        requires
            old(self).held_ms < HOLD_CONFIRM_MS,
            l.bar <= 1000,
        ensures
            (*final(self), st) == hold_step_spec(*l, *old(self), touch),
    {
        match touch {
            Some((x, y)) => {
                if rect_contains(&l.cancel_a, x, y) {
                    HoldStep::Cancelled { click: l.click_a }
                } else if rect_contains(&l.cancel_b, x, y) {
                    HoldStep::Cancelled { click: l.click_b }
                } else if rect_contains(&l.button, x, y) {
                    self.waiting_for_press = false;
                    self.held_ms = self.held_ms + HOLD_POLL_MS;
                    if self.held_ms >= HOLD_CONFIRM_MS {
                        HoldStep::Confirmed
                    } else {
                        assert(self.held_ms * l.bar <= 4000 * 1000) by (nonlinear_arith)
                            requires self.held_ms < 4000, l.bar <= 1000;
                        let f = self.held_ms * l.bar / HOLD_CONFIRM_MS;
                        HoldStep::Holding { fill: if f < l.bar { f } else { l.bar } }
                    }
                } else if !self.waiting_for_press {
                    HoldStep::Cancelled { click: false }
                } else {
                    HoldStep::Waiting
                }
            },
            None => {
                if !self.waiting_for_press {
                    HoldStep::Cancelled { click: false }
                } else {
                    HoldStep::Waiting
                }
            },
        }
    }
}

/// The gesture after the polls `ts`, from a fresh start; once it has ended
/// it stays as it ended.
pub open spec fn hold_run(l: HoldLayout, ts: Seq<Option<(u16, u16)>>) -> (HoldGesture, HoldStep)
    decreases ts.len(),
{
    if ts.len() == 0 {
        (hold_fresh(), HoldStep::Waiting)
    } else {
        let prev = hold_run(l, ts.drop_last());
        if hold_ended(prev.1) { prev } else { hold_step_spec(l, prev.0, ts.last()) }
    }
}

/// The number of polls at the end of `ts` that touched the button.
pub open spec fn trailing_presses(l: HoldLayout, ts: Seq<Option<(u16, u16)>>) -> nat
    decreases ts.len(),
{
    if ts.len() > 0 && on_hold_button(l, ts.last()) { 1 + trailing_presses(l, ts.drop_last()) } else { 0 }
}

proof fn lemma_hold_run_counts(l: HoldLayout, ts: Seq<Option<(u16, u16)>>)
    ensures
        !hold_ended(hold_run(l, ts).1) ==> {
            &&& hold_run(l, ts).0.held_ms == HOLD_POLL_MS * trailing_presses(l, ts)
            &&& hold_run(l, ts).0.held_ms < HOLD_CONFIRM_MS
            &&& hold_run(l, ts).0.waiting_for_press ==> trailing_presses(l, ts) == 0
        },
        hold_run(l, ts).1 == HoldStep::Confirmed && !hold_ended(hold_run(l, ts.drop_last()).1) && ts.len() > 0
            ==> trailing_presses(l, ts) == HOLD_CONFIRM_MS / HOLD_POLL_MS,
    decreases ts.len(),
{
    if ts.len() > 0 {
        lemma_hold_run_counts(l, ts.drop_last());
    }
}

/// The action is confirmed only after its button was held without a break
/// for the whole four seconds: whenever a run of polls ends in
/// confirmation, some prefix of it ends in 80 consecutive polls on the button.
pub proof fn lemma_confirm_needs_full_hold(l: HoldLayout, ts: Seq<Option<(u16, u16)>>)
    requires
        hold_run(l, ts).1 == HoldStep::Confirmed,
    ensures
        exists|n: int| 0 < n <= ts.len() && #[trigger] trailing_presses(l, ts.take(n)) == HOLD_CONFIRM_MS / HOLD_POLL_MS,
    decreases ts.len(),
{
    lemma_hold_run_counts(l, ts);
    assert(ts.len() > 0);
    assert(ts.take(ts.len() as int) =~= ts);
    if hold_ended(hold_run(l, ts.drop_last()).1) {
        lemma_confirm_needs_full_hold(l, ts.drop_last());
        let n = choose|n: int| 0 < n <= ts.drop_last().len() && #[trigger] trailing_presses(l, ts.drop_last().take(n)) == HOLD_CONFIRM_MS / HOLD_POLL_MS;
        assert(ts.drop_last().take(n) =~= ts.take(n));
    } else {
        assert(trailing_presses(l, ts.take(ts.len() as int)) == HOLD_CONFIRM_MS / HOLD_POLL_MS);
    }
}

} // verus!
