//! The counter engine: a flat reactive classifier that receives one input
//! event at a time and updates a fixed table of named counters, with
//! modifier-key latches and debounce windows as its only transient state.
use vstd::prelude::*;

use crate::event::{Event, KeyEvent, MouseEvent, Point};
use crate::label::{label_at, lemma_slot_in_range, slot, Label, LABEL_COUNT};

verus! {

broadcast use crate::label::lemma_slot_in_range;

/// Virtual key code of the left Ctrl key.
pub const VK_CTRL: u32 = 162;
/// Virtual key code of Esc.
pub const VK_ESC: u32 = 27;
/// Virtual key code of Tab.
pub const VK_TAB: u32 = 9;
/// Virtual key code of Backspace.
pub const VK_BACKSPACE: u32 = 8;
/// Virtual key code of the left Alt key.
pub const VK_ALT: u32 = 164;
/// Virtual key code of Delete.
pub const VK_DELETE: u32 = 46;
/// Virtual key code of Enter.
pub const VK_ENTER: u32 = 13;
/// Virtual key code of the letter C.
pub const VK_C: u32 = 67;
/// Virtual key code of the letter X.
pub const VK_X: u32 = 88;
/// Virtual key code of the letter V.
pub const VK_V: u32 = 86;
/// Virtual key code of the letter Z.
pub const VK_Z: u32 = 90;
/// Virtual key code of the letter Y.
pub const VK_Y: u32 = 89;
/// Virtual key code of the letter S.
pub const VK_S: u32 = 83;

/// A left-button press within this many milliseconds of the previous one
/// can register as a double click.
pub const DOUBLE_CLICK_WINDOW_MS: i64 = 500;
/// Two clicks register as a double click only if each coordinate moved by
/// less than this many pixels.
pub const DOUBLE_CLICK_SLOP_PX: i64 = 4;
/// A wheel or move event is counted only when more than this many
/// milliseconds have passed since the last counted one.
pub const DEBOUNCE_WINDOW_MS: i64 = 800;

/// The mathematical model of the aggregate: every counter of the fixed
/// label set, the modifier latches, and the debounce timestamps.
#[verifier::ext_equal]
pub ghost struct CounterV {
    /// When the aggregate window began, in milliseconds since the epoch.
    pub started_at: int,
    /// The value of every counter in the fixed label set.
    pub counts: Map<Label, nat>,
    /// Whether a Ctrl press has been seen without its matching release.
    pub ctrl_down: bool,
    /// Whether an Alt press has been seen without its matching release.
    pub alt_down: bool,
    /// When the most recent left-button press arrived.
    pub last_click_time: int,
    /// Where the most recent left-button press arrived: x coordinate.
    pub last_click_x: int,
    /// Where the most recent left-button press arrived: y coordinate.
    pub last_click_y: int,
    /// When the last counted wheel event arrived.
    pub last_wheel_at: int,
    /// When the last counted move event arrived.
    pub last_move_at: int,
}

/// The counter table of a `Counter` as a total map over the fixed label
/// set: the value in a label's slot, under that label.
pub open spec fn counts_map(s: Seq<u128>) -> Map<Label, nat> {
    Map::new(|l: Label| true, |l: Label| s[slot(l)] as nat)
}

/// Every counter at zero.
pub open spec fn zero_counts() -> Map<Label, nat> {
    Map::new(|l: Label| true, |l: Label| 0)
}

/// One counter advanced by one; everything else untouched.
pub open spec fn bump(c: CounterV, l: Label) -> CounterV {
    CounterV { counts: c.counts.insert(l, c.counts[l] + 1), ..c }
}

impl CounterV {
    /// All timestamp fields are non-negative wall-clock milliseconds.
    pub open spec fn temporal_ok(self) -> bool {
        &&& self.started_at >= 0
        &&& self.last_click_time >= 0
        &&& self.last_wheel_at >= 0
        &&& self.last_move_at >= 0
    }

    /// Every counter still has headroom: none sits at the largest value
    /// its machine word can hold.
    pub open spec fn unsaturated(self) -> bool {
        forall|l: Label| #[trigger] self.counts[l] < u128::MAX
    }
}

/// A fresh aggregate: window opened at `t`, every counter at zero,
/// latches off, debounce timestamps at zero.
pub open spec fn spec_fresh(t: int) -> CounterV {
    CounterV {
        started_at: t,
        counts: zero_counts(),
        ctrl_down: false,
        alt_down: false,
        last_click_time: 0,
        last_click_x: 0,
        last_click_y: 0,
        last_wheel_at: 0,
        last_move_at: 0,
    }
}

/// What `clear` leaves behind: every counter reset to zero, while the
/// latches and the debounce timestamps keep their live hardware state.
pub open spec fn spec_clear(c: CounterV) -> CounterV {
    CounterV { counts: zero_counts(), ..c }
}

/// Whether a left-button press at `pt` at time `now` completes a double
/// click: within the time window of the previous press, and within the
/// spatial slop in both coordinates.
pub open spec fn is_double_click(c: CounterV, pt: Point, now: int) -> bool {
    &&& now - c.last_click_time < DOUBLE_CLICK_WINDOW_MS
    &&& pt.x - c.last_click_x < DOUBLE_CLICK_SLOP_PX
    &&& c.last_click_x - pt.x < DOUBLE_CLICK_SLOP_PX
    &&& pt.y - c.last_click_y < DOUBLE_CLICK_SLOP_PX
    &&& c.last_click_y - pt.y < DOUBLE_CLICK_SLOP_PX
}

/// Classification of a key press, in rule order: the generic keystroke
/// counter always advances; Ctrl and Alt latch; each special key has its
/// own counter; Tab under a latched Alt also counts as Alt+Tab; under a
/// latched Ctrl, exactly one of the six letter combinations can count.
pub open spec fn spec_key_press(c: CounterV, code: u32) -> CounterV {
    let c1 = bump(c, Label::Keystrokes);
    let c2 = CounterV {
        ctrl_down: c1.ctrl_down || code == VK_CTRL,
        alt_down: c1.alt_down || code == VK_ALT,
        ..c1
    };
    let c3 = if code == VK_BACKSPACE {
        bump(c2, Label::Backspace)
    } else {
        c2
    };
    let c4 = if code == VK_ENTER {
        bump(c3, Label::Enter)
    } else {
        c3
    };
    let c5 = if code == VK_DELETE {
        bump(c4, Label::Delete)
    } else {
        c4
    };
    let c6 = if code == VK_ESC {
        bump(c5, Label::Esc)
    } else {
        c5
    };
    let c7 = if code == VK_TAB {
        if c2.alt_down {
            bump(bump(c6, Label::Tab), Label::AltTab)
        } else {
            bump(c6, Label::Tab)
        }
    } else {
        c6
    };
    if c2.ctrl_down {
        if code == VK_C {
            bump(c7, Label::CtrlC)
        } else if code == VK_S {
            bump(c7, Label::CtrlS)
        } else if code == VK_X {
            bump(c7, Label::CtrlX)
        } else if code == VK_Z {
            bump(c7, Label::CtrlZ)
        } else if code == VK_Y {
            bump(c7, Label::CtrlY)
        } else if code == VK_V {
            bump(c7, Label::CtrlV)
        } else {
            c7
        }
    } else {
        c7
    }
}

/// A key release only clears the matching modifier latch; no counter
/// is touched.
pub open spec fn spec_key_up(c: CounterV, code: u32) -> CounterV {
    if code == VK_CTRL {
        CounterV { ctrl_down: false, ..c }
    } else if code == VK_ALT {
        CounterV { alt_down: false, ..c }
    } else {
        c
    }
}

/// A left-button press: the left-click counter advances, a double click
/// may also count, and the press unconditionally becomes the new
/// double-click baseline.
pub open spec fn spec_left_down(c: CounterV, pt: Point, now: int) -> CounterV {
    let c1 = bump(c, Label::LeftClicks);
    let c2 = if is_double_click(c, pt, now) {
        bump(c1, Label::DoubleClicks)
    } else {
        c1
    };
    CounterV {
        last_click_time: now,
        last_click_x: pt.x as int,
        last_click_y: pt.y as int,
        ..c2
    }
}

/// A wheel event counts only when the debounce window measured from the
/// last counted wheel event has passed; a dropped event changes nothing.
pub open spec fn spec_wheel(c: CounterV, now: int) -> CounterV {
    if now - c.last_wheel_at > DEBOUNCE_WINDOW_MS {
        CounterV { last_wheel_at: now, ..bump(c, Label::Wheel) }
    } else {
        c
    }
}

/// A mouse move, debounced exactly as wheel events are, against its own
/// timestamp.
pub open spec fn spec_mouse_move(c: CounterV, now: int) -> CounterV {
    if now - c.last_move_at > DEBOUNCE_WINDOW_MS {
        CounterV { last_move_at: now, ..bump(c, Label::MouseMoves) }
    } else {
        c
    }
}

/// The full classification: what one delivered event, arriving at time
/// `now`, does to the aggregate. Button releases and middle-button
/// events are reserved and change nothing.
pub open spec fn spec_recv(c: CounterV, event: Event, now: int) -> CounterV {
    match event {
        Event::KeyEvent(KeyEvent::KeyPress(code)) => spec_key_press(c, code),
        Event::KeyEvent(KeyEvent::KeyUp(code)) => spec_key_up(c, code),
        Event::MouseEvent((MouseEvent::MouseLeftButtonDown, pt)) => spec_left_down(c, pt, now),
        Event::MouseEvent((MouseEvent::MouseRightButtonDown, _)) => bump(c, Label::RightClicks),
        Event::MouseEvent((MouseEvent::MouseWheelRouting, _)) => spec_wheel(c, now),
        Event::MouseEvent((MouseEvent::MouseMove, _)) => spec_mouse_move(c, now),
        _ => c,
    }
}

/// The aggregate a whole process run accumulates into: the counter table
/// plus the transient classification state.
pub struct Counter {
    /// When the aggregate window began, in milliseconds since the epoch.
    pub started_at: i64,
    /// The counter table; the value of the label in slot `i` sits at
    /// index `i`.
    pub counts: Vec<u128>,
    /// The Ctrl latch.
    pub ctrl_down: bool,
    /// The Alt latch.
    pub alt_down: bool,
    /// Timestamp and position of the most recent left-button press.
    pub last_left_click: (i64, Point),
    /// Timestamp of the last counted wheel event.
    pub last_wheel_at: i64,
    /// Timestamp of the last counted move event.
    pub last_move_at: i64,
}

impl View for Counter {
    type V = CounterV;

    open spec fn view(&self) -> CounterV {
        CounterV {
            started_at: self.started_at as int,
            counts: counts_map(self.counts@),
            ctrl_down: self.ctrl_down,
            alt_down: self.alt_down,
            last_click_time: self.last_left_click.0 as int,
            last_click_x: self.last_left_click.1.x as int,
            last_click_y: self.last_left_click.1.y as int,
            last_wheel_at: self.last_wheel_at as int,
            last_move_at: self.last_move_at as int,
        }
    }
}

/// A counter table with a slot for every label, each at zero.
fn zero_table() -> (v: Vec<u128>)
    ensures
        v@.len() == LABEL_COUNT,
        forall|j: int| 0 <= j < LABEL_COUNT ==> #[trigger] v@[j] == 0,
{
    let mut v: Vec<u128> = Vec::new();
    let mut i: usize = 0;
    while i < LABEL_COUNT
        invariant
            i <= LABEL_COUNT,
            v@.len() == i,
            forall|j: int| 0 <= j < i ==> #[trigger] v@[j] == 0,
        decreases LABEL_COUNT - i,
    {
        v.push(0);
        i += 1;
    }
    v
}

/// Relies on `chrono::Utc::now` and `DateTime::timestamp_millis`: the
/// current wall clock as whole milliseconds since the Unix epoch.
/// `Utc::now` stops the process when the system clock sits before the
/// epoch, so a value it does return is never negative.
#[verifier::external_body]
fn now_millis() -> (t: i64)
    ensures
        t >= 0,
{
    chrono::Utc::now().timestamp_millis()
}

impl Counter {
    /// The counter table holds exactly one slot per label of the fixed
    /// set.
    pub open spec fn wf(self) -> bool {
        self.counts@.len() == LABEL_COUNT
    }

    /// A fresh aggregate whose window begins at `now`.
    pub fn new(now: i64) -> (r: Counter)
        requires
            now >= 0,
        ensures
            r.wf(),
            r@ == spec_fresh(now as int),
    {
        let r = Counter {
            started_at: now,
            counts: zero_table(),
            ctrl_down: false,
            alt_down: false,
            last_left_click: (0, Point { x: 0, y: 0 }),
            last_wheel_at: 0,
            last_move_at: 0,
        };
        proof {
            assert(r@.counts.dom() =~= spec_fresh(now as int).counts.dom());
            assert(r@.counts =~= spec_fresh(now as int).counts);
        }
        r
    }

    /// A fresh aggregate whose window begins now, by the system clock.
    pub fn fresh() -> (r: Counter)
        ensures
            r.wf(),
            r@.temporal_ok(),
            r@.unsaturated(),
            exists|t: int| #[trigger] spec_fresh(t) == r@ && t >= 0,
    {
        let now = now_millis();
        let r = Counter::new(now);
        proof {
            let t = now as int;
            assert(spec_fresh(t) == r@ && t >= 0);
        }
        r
    }

    /// Advances the counter under `label` by one and touches nothing
    /// else. Every classification branch funnels through here.
    pub fn add_count(&mut self, label: Label)
        requires
            old(self).wf(),
            old(self)@.counts[label] < u128::MAX,
        ensures
            final(self).wf(),
            final(self)@ == bump(old(self)@, label),
    {
        let i = label.index();
        let c = self.counts[i];
        assert(c as nat == old(self)@.counts[label]);
        self.counts[i] = c + 1;
        proof {
            let expected = bump(old(self)@, label);
            assert forall|l2: Label| #[trigger] self@.counts[l2] == expected.counts[l2] by {
                lemma_slot_in_range(l2);
                lemma_slot_in_range(label);
                crate::label::lemma_slot_injective(l2, label);
            }
            assert(self@.counts.dom() =~= expected.counts.dom());
            assert(self@.counts =~= expected.counts);
        }
    }

    /// Resets every counter in the fixed label set to zero — the entries
    /// stay, their values become zero — and leaves the modifier latches
    /// and debounce timestamps unchanged: those reflect live hardware
    /// state, not accumulated totals. The window start stays as well, a
    /// deliberate choice: clearing discards totals, it does not reopen
    /// the aggregate window.
    pub fn clear(&mut self)
        requires
            old(self).wf(),
        ensures
            final(self).wf(),
            final(self)@ == spec_clear(old(self)@),
    {
        self.counts = zero_table();
        proof {
            assert(self@.counts.dom() =~= spec_clear(old(self)@).counts.dom());
            assert(self@.counts =~= spec_clear(old(self)@).counts);
        }
    }

    /// Sets the Ctrl latch.
    fn set_ctrl(&mut self, v: bool)
        requires
            old(self).wf(),
        ensures
            final(self).wf(),
            final(self)@ == (CounterV { ctrl_down: v, ..old(self)@ }),
    {
        self.ctrl_down = v;
    }

    /// Sets the Alt latch.
    fn set_alt(&mut self, v: bool)
        requires
            old(self).wf(),
        ensures
            final(self).wf(),
            final(self)@ == (CounterV { alt_down: v, ..old(self)@ }),
    {
        self.alt_down = v;
    }

    /// Records a left-button press as the new double-click baseline.
    fn set_last_click(&mut self, now: i64, pt: Point)
        requires
            old(self).wf(),
        ensures
            final(self).wf(),
            final(self)@ == (CounterV {
                last_click_time: now as int,
                last_click_x: pt.x as int,
                last_click_y: pt.y as int,
                ..old(self)@
            }),
    {
        self.last_left_click = (now, pt);
    }

    /// Records the time of a counted wheel event.
    fn set_wheel_at(&mut self, now: i64)
        requires
            old(self).wf(),
        ensures
            final(self).wf(),
            final(self)@ == (CounterV { last_wheel_at: now as int, ..old(self)@ }),
    {
        self.last_wheel_at = now;
    }

    /// Records the time of a counted move event.
    fn set_move_at(&mut self, now: i64)
        requires
            old(self).wf(),
        ensures
            final(self).wf(),
            final(self)@ == (CounterV { last_move_at: now as int, ..old(self)@ }),
    {
        self.last_move_at = now;
    }

    /// Classifies one event delivered at time `now` and updates the
    /// aggregate exactly as `spec_recv` says.
    pub fn recv_at(&mut self, event: Event, now: i64)
        requires
            old(self).wf(),
            old(self)@.temporal_ok(),
            old(self)@.unsaturated(),
            now >= 0,
        ensures
            final(self).wf(),
            final(self)@.temporal_ok(),
            final(self)@ == spec_recv(old(self)@, event, now as int),
    {
        match event {
            Event::KeyEvent(KeyEvent::KeyPress(code)) => {
                self.add_count(Label::Keystrokes);
                if code == VK_CTRL {
                    self.set_ctrl(true);
                }
                if code == VK_ALT {
                    self.set_alt(true);
                }
                if code == VK_BACKSPACE {
                    self.add_count(Label::Backspace);
                }
                if code == VK_ENTER {
                    self.add_count(Label::Enter);
                }
                if code == VK_DELETE {
                    self.add_count(Label::Delete);
                }
                if code == VK_ESC {
                    self.add_count(Label::Esc);
                }
                if code == VK_TAB {
                    self.add_count(Label::Tab);
                    if self.alt_down {
                        self.add_count(Label::AltTab);
                    }
                }
                if self.ctrl_down {
                    if code == VK_C {
                        self.add_count(Label::CtrlC);
                    } else if code == VK_S {
                        self.add_count(Label::CtrlS);
                    } else if code == VK_X {
                        self.add_count(Label::CtrlX);
                    } else if code == VK_Z {
                        self.add_count(Label::CtrlZ);
                    } else if code == VK_Y {
                        self.add_count(Label::CtrlY);
                    } else if code == VK_V {
                        self.add_count(Label::CtrlV);
                    }
                }
            },
            Event::KeyEvent(KeyEvent::KeyUp(code)) => {
                if code == VK_CTRL {
                    self.set_ctrl(false);
                } else if code == VK_ALT {
                    self.set_alt(false);
                }
            },
            Event::MouseEvent((MouseEvent::MouseLeftButtonDown, pt)) => {
                self.add_count(Label::LeftClicks);
                let (t0, p0) = self.last_left_click;
                let dx = (pt.x as i64) - (p0.x as i64);
                let dy = (pt.y as i64) - (p0.y as i64);
                if now - t0 < DOUBLE_CLICK_WINDOW_MS && dx < DOUBLE_CLICK_SLOP_PX && -dx
                    < DOUBLE_CLICK_SLOP_PX && dy < DOUBLE_CLICK_SLOP_PX && -dy
                    < DOUBLE_CLICK_SLOP_PX {
                    self.add_count(Label::DoubleClicks);
                }
                self.set_last_click(now, pt);
            },
            Event::MouseEvent((MouseEvent::MouseRightButtonDown, _)) => {
                self.add_count(Label::RightClicks);
            },
            Event::MouseEvent((MouseEvent::MouseWheelRouting, _)) => {
                if now - self.last_wheel_at > DEBOUNCE_WINDOW_MS {
                    self.set_wheel_at(now);
                    self.add_count(Label::Wheel);
                }
            },
            Event::MouseEvent((MouseEvent::MouseMove, _)) => {
                if now - self.last_move_at > DEBOUNCE_WINDOW_MS {
                    self.set_move_at(now);
                    self.add_count(Label::MouseMoves);
                }
            },
            _ => {},
        }
    }

    /// Classifies one event against the system clock: the single
    /// mutating entry point the input hook calls, once per delivered
    /// event.
    pub fn recv(&mut self, event: Event)
        requires
            old(self).wf(),
            old(self)@.temporal_ok(),
            old(self)@.unsaturated(),
        ensures
            final(self).wf(),
            final(self)@.temporal_ok(),
            exists|t: int| #[trigger] spec_recv(old(self)@, event, t) == final(self)@ && t >= 0,
    {
        let now = now_millis();
        self.recv_at(event, now);
        proof {
            let t = now as int;
            assert(spec_recv(old(self)@, event, t) == self@ && t >= 0);
        }
    }

    /// The current value of one counter.
    pub fn count_of(&self, label: Label) -> (n: u128)
        requires
            self.wf(),
        ensures
            n as nat == self@.counts[label],
    {
        let i = label.index();
        self.counts[i]
    }

    /// Whether every counter still has headroom; `recv` asks for this,
    /// and a caller that cannot know it tests it first.
    pub fn has_headroom(&self) -> (r: bool)
        requires
            self.wf(),
        ensures
            r == self@.unsaturated(),
    {
        let mut i: usize = 0;
        let mut ok = true;
        while i < LABEL_COUNT
            invariant
                self.wf(),
                i <= LABEL_COUNT,
                ok == (forall|j: int| 0 <= j < i ==> #[trigger] self.counts@[j] < u128::MAX),
            decreases LABEL_COUNT - i,
        {
            if self.counts[i] == u128::MAX {
                ok = false;
            }
            i += 1;
        }
        proof {
            if ok {
                assert forall|l: Label| #[trigger] self@.counts[l] < u128::MAX by {
                    lemma_slot_in_range(l);
                }
            } else {
                let j = choose|j: int| 0 <= j < LABEL_COUNT && !(self.counts@[j] < u128::MAX);
                crate::label::lemma_label_at_slot(j);
                assert(self@.counts[label_at(j)] == self.counts@[j]);
            }
        }
        ok
    }
}

} // verus!
