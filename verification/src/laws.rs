//! The laws of the classifier, stated once and proved from the
//! functional specification: what unrecognized keys may touch, how the
//! double-click and debounce windows behave, what the modifier latches
//! decide, and what `clear` leaves behind.
use vstd::prelude::*;

use crate::counter::{
    bump, spec_clear, spec_recv, CounterV, DEBOUNCE_WINDOW_MS, DOUBLE_CLICK_SLOP_PX,
    DOUBLE_CLICK_WINDOW_MS, VK_ALT, VK_BACKSPACE, VK_C, VK_CTRL, VK_DELETE, VK_ENTER, VK_ESC,
    VK_S, VK_TAB, VK_V, VK_X, VK_Y, VK_Z,
};
use crate::event::{Event, KeyEvent, MouseEvent, Point};
use crate::label::Label;

verus! {

/// The key codes the classifier recognizes beyond the generic
/// keystroke count: the special keys, the modifiers, and the letters
/// that can pair with Ctrl.
pub open spec fn recognized_key(code: u32) -> bool {
    ||| code == VK_BACKSPACE
    ||| code == VK_ENTER
    ||| code == VK_DELETE
    ||| code == VK_ESC
    ||| code == VK_TAB
    ||| code == VK_CTRL
    ||| code == VK_ALT
    ||| code == VK_C
    ||| code == VK_X
    ||| code == VK_V
    ||| code == VK_Z
    ||| code == VK_Y
    ||| code == VK_S
}

/// A left-button press at `pt`.
pub open spec fn left_down(pt: Point) -> Event {
    Event::MouseEvent((MouseEvent::MouseLeftButtonDown, pt))
}

/// A wheel event at `pt`.
pub open spec fn wheel(pt: Point) -> Event {
    Event::MouseEvent((MouseEvent::MouseWheelRouting, pt))
}

/// A press of the key with code `code`.
pub open spec fn press(code: u32) -> Event {
    Event::KeyEvent(KeyEvent::KeyPress(code))
}

/// A release of the key with code `code`.
pub open spec fn release(code: u32) -> Event {
    Event::KeyEvent(KeyEvent::KeyUp(code))
}

/// Pressing a key outside the recognized set advances the generic
/// keystroke counter and touches no other field, whatever the state of
/// the latches.
pub proof fn lemma_unrecognized_key_only_keystrokes(c: CounterV, code: u32, now: int)
    requires
        !recognized_key(code),
    ensures
        spec_recv(c, press(code), now) == bump(c, Label::Keystrokes),
{
}

/// Two left-button presses at one position land inside the double-click
/// window exactly when less than the window's length separates them:
/// then they advance the left-click counter by two and the double-click
/// counter by one; spaced any wider, they advance the left-click
/// counter alone. The first press must not itself complete a double
/// click with an earlier one.
pub proof fn lemma_double_click_window(c: CounterV, pt: Point, t1: int, t2: int)
    requires
        t1 - c.last_click_time >= DOUBLE_CLICK_WINDOW_MS,
    ensures
        ({
            let c2 = spec_recv(spec_recv(c, left_down(pt), t1), left_down(pt), t2);
            let doubles = c.counts[Label::DoubleClicks];
            &&& c2.counts[Label::LeftClicks] == c.counts[Label::LeftClicks] + 2
            &&& (t2 - t1 < DOUBLE_CLICK_WINDOW_MS ==> c2.counts[Label::DoubleClicks] == doubles
                + 1)
            &&& (t2 - t1 >= DOUBLE_CLICK_WINDOW_MS ==> c2.counts[Label::DoubleClicks] == doubles)
        }),
{
}

/// Two left-button presses close in time but far enough apart in either
/// coordinate advance only the left-click counter, never the
/// double-click counter.
pub proof fn lemma_double_click_spatial_bound(c: CounterV, p1: Point, p2: Point, t1: int, t2: int)
    requires
        t1 - c.last_click_time >= DOUBLE_CLICK_WINDOW_MS,
        p2.x - p1.x >= DOUBLE_CLICK_SLOP_PX || p1.x - p2.x >= DOUBLE_CLICK_SLOP_PX || p2.y - p1.y
            >= DOUBLE_CLICK_SLOP_PX || p1.y - p2.y >= DOUBLE_CLICK_SLOP_PX,
    ensures
        ({
            let c2 = spec_recv(spec_recv(c, left_down(p1), t1), left_down(p2), t2);
            &&& c2.counts[Label::LeftClicks] == c.counts[Label::LeftClicks] + 2
            &&& c2.counts[Label::DoubleClicks] == c.counts[Label::DoubleClicks]
        }),
{
}

/// A wheel event that arrives while the debounce window is still open
/// is dropped entirely: no counter moves, no timestamp moves.
pub proof fn lemma_wheel_debounce_drop(c: CounterV, pt: Point, now: int)
    requires
        now - c.last_wheel_at <= DEBOUNCE_WINDOW_MS,
    ensures
        spec_recv(c, wheel(pt), now) == c,
{
}

/// The state after a sequence of wheel events at the given times, in
/// order.
pub open spec fn recv_wheel_seq(c: CounterV, times: Seq<int>, pt: Point) -> CounterV
    decreases times.len(),
{
    if times.len() == 0 {
        c
    } else {
        recv_wheel_seq(spec_recv(c, wheel(pt), times[0]), times.drop_first(), pt)
    }
}

/// Wheel events that all sit within the debounce window measured from
/// the counted event that opened it leave the state exactly where that
/// event left it.
proof fn lemma_wheel_seq_noop(c1: CounterV, pt: Point, t0: int, rest: Seq<int>)
    requires
        c1.last_wheel_at == t0,
        forall|i: int| 0 <= i < rest.len() ==> #[trigger] rest[i] - t0 <= DEBOUNCE_WINDOW_MS,
    ensures
        recv_wheel_seq(c1, rest, pt) == c1,
    decreases rest.len(),
{
    if rest.len() > 0 {
        lemma_wheel_debounce_drop(c1, pt, rest[0]);
        assert forall|i: int| 0 <= i < rest.drop_first().len() implies #[trigger] rest.drop_first()[i]
            - t0 <= DEBOUNCE_WINDOW_MS by {
            assert(rest.drop_first()[i] == rest[i + 1]);
        }
        lemma_wheel_seq_noop(c1, pt, t0, rest.drop_first());
    }
}

/// A burst of wheel events — one that opens the debounce window and any
/// number more within that window — advances the wheel counter exactly
/// once in total, however many events the burst holds, and ends in
/// exactly the state the first event made.
pub proof fn lemma_wheel_burst_collapses(c: CounterV, pt: Point, t0: int, rest: Seq<int>)
    requires
        t0 - c.last_wheel_at > DEBOUNCE_WINDOW_MS,
        forall|i: int| 0 <= i < rest.len() ==> #[trigger] rest[i] - t0 <= DEBOUNCE_WINDOW_MS,
    ensures
        ({
            let c1 = spec_recv(c, wheel(pt), t0);
            &&& recv_wheel_seq(c1, rest, pt) == c1
            &&& c1.counts[Label::Wheel] == c.counts[Label::Wheel] + 1
        }),
{
    let c1 = spec_recv(c, wheel(pt), t0);
    lemma_wheel_seq_noop(c1, pt, t0, rest);
}

/// A wheel event that lands beyond the debounce window counts and
/// reopens the window from its own time: spaced wide enough, every
/// event counts.
pub proof fn lemma_wheel_debounce_reopens(c: CounterV, pt: Point, t1: int, t2: int)
    requires
        t1 - c.last_wheel_at > DEBOUNCE_WINDOW_MS,
        t2 - t1 > DEBOUNCE_WINDOW_MS,
    ensures
        ({
            let c2 = spec_recv(spec_recv(c, wheel(pt), t1), wheel(pt), t2);
            &&& c2.counts[Label::Wheel] == c.counts[Label::Wheel] + 2
            &&& c2.last_wheel_at == t2
        }),
{
}

/// With Ctrl latched by a press, a later press of C advances the
/// Ctrl+C counter; once Ctrl is released, a press of C advances only
/// the generic keystroke counter.
pub proof fn lemma_ctrl_latch(c: CounterV, t1: int, t2: int)
    ensures
        ({
            let c2 = spec_recv(spec_recv(c, press(VK_CTRL), t1), press(VK_C), t2);
            c2.counts[Label::CtrlC] == c.counts[Label::CtrlC] + 1
        }),
        ({
            let c1 = spec_recv(c, release(VK_CTRL), t1);
            let c2 = spec_recv(c1, press(VK_C), t2);
            &&& c1.counts == c.counts
            &&& c2 == bump(c1, Label::Keystrokes)
        }),
{
}

/// With Alt latched by a press, a press of Tab advances the Tab
/// counter, the Alt+Tab counter, and the generic keystroke counter in
/// one stroke.
pub proof fn lemma_alt_tab_compound(c: CounterV, t1: int, t2: int)
    ensures
        ({
            let c2 = spec_recv(spec_recv(c, press(VK_ALT), t1), press(VK_TAB), t2);
            &&& c2.counts[Label::Tab] == c.counts[Label::Tab] + 1
            &&& c2.counts[Label::AltTab] == c.counts[Label::AltTab] + 1
            &&& c2.counts[Label::Keystrokes] == c.counts[Label::Keystrokes] + 2
        }),
{
}

/// Whatever state any sequence of events has driven the aggregate to,
/// clearing it zeroes every counter of the fixed label set and leaves
/// the modifier latches and the debounce timestamps untouched.
pub proof fn lemma_clear_semantics(c: CounterV, l: Label)
    ensures
        spec_clear(c).counts[l] == 0,
        spec_clear(c).started_at == c.started_at,
        spec_clear(c).ctrl_down == c.ctrl_down,
        spec_clear(c).alt_down == c.alt_down,
        spec_clear(c).last_click_time == c.last_click_time,
        spec_clear(c).last_click_x == c.last_click_x,
        spec_clear(c).last_click_y == c.last_click_y,
        spec_clear(c).last_wheel_at == c.last_wheel_at,
        spec_clear(c).last_move_at == c.last_move_at,
{
}

} // verus!
