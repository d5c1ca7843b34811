//! Scenario tests for the classifier: one concrete run for each rule of
//! the engine, with exact expected counter values.
use keyboard_counter::counter::{
    Counter, VK_ALT, VK_BACKSPACE, VK_C, VK_CTRL, VK_DELETE, VK_ENTER, VK_ESC, VK_S, VK_TAB,
    VK_V, VK_X, VK_Y, VK_Z,
};
use keyboard_counter::event::{Event, KeyEvent, MouseEvent, Point};
use keyboard_counter::label::Label;

fn press(code: u32) -> Event {
    Event::KeyEvent(KeyEvent::KeyPress(code))
}

fn release(code: u32) -> Event {
    Event::KeyEvent(KeyEvent::KeyUp(code))
}

fn mouse(kind: MouseEvent, x: i32, y: i32) -> Event {
    Event::MouseEvent((kind, Point { x, y }))
}

fn all_counts(c: &Counter) -> Vec<(Label, u128)> {
    Label::all().into_iter().map(|l| (l, c.count_of(l))).collect()
}

#[test]
fn unrecognized_key_touches_only_keystrokes() {
    let mut c = Counter::new(0);
    c.recv_at(press(65), 100); // the letter A: not in the recognized set
    for (label, value) in all_counts(&c) {
        if label == Label::Keystrokes {
            assert_eq!(value, 1);
        } else {
            assert_eq!(value, 0, "{:?} moved", label);
        }
    }
    assert!(!c.ctrl_down);
    assert!(!c.alt_down);
    assert_eq!(c.last_left_click, (0, Point { x: 0, y: 0 }));
    assert_eq!(c.last_wheel_at, 0);
    assert_eq!(c.last_move_at, 0);
}

#[test]
fn every_special_key_has_its_own_counter() {
    let mut c = Counter::new(0);
    c.recv_at(press(VK_BACKSPACE), 10);
    c.recv_at(press(VK_ENTER), 20);
    c.recv_at(press(VK_DELETE), 30);
    c.recv_at(press(VK_ESC), 40);
    c.recv_at(press(VK_TAB), 50);
    assert_eq!(c.count_of(Label::Backspace), 1);
    assert_eq!(c.count_of(Label::Enter), 1);
    assert_eq!(c.count_of(Label::Delete), 1);
    assert_eq!(c.count_of(Label::Esc), 1);
    assert_eq!(c.count_of(Label::Tab), 1);
    assert_eq!(c.count_of(Label::Keystrokes), 5);
    assert_eq!(c.count_of(Label::AltTab), 0); // Alt was never latched
}

#[test]
fn double_click_inside_window_counts() {
    let mut c = Counter::new(0);
    c.recv_at(mouse(MouseEvent::MouseLeftButtonDown, 50, 60), 1000);
    c.recv_at(mouse(MouseEvent::MouseLeftButtonDown, 50, 60), 1400);
    assert_eq!(c.count_of(Label::LeftClicks), 2);
    assert_eq!(c.count_of(Label::DoubleClicks), 1);
}

#[test]
fn double_click_window_closes_at_five_hundred_ms() {
    let mut c = Counter::new(0);
    c.recv_at(mouse(MouseEvent::MouseLeftButtonDown, 50, 60), 1000);
    c.recv_at(mouse(MouseEvent::MouseLeftButtonDown, 50, 60), 1501);
    assert_eq!(c.count_of(Label::LeftClicks), 2);
    assert_eq!(c.count_of(Label::DoubleClicks), 0);

    // one millisecond inside the window still counts
    let mut d = Counter::new(0);
    d.recv_at(mouse(MouseEvent::MouseLeftButtonDown, 50, 60), 1000);
    d.recv_at(mouse(MouseEvent::MouseLeftButtonDown, 50, 60), 1499);
    assert_eq!(d.count_of(Label::DoubleClicks), 1);

    // the boundary itself is outside: the window is strict
    let mut e = Counter::new(0);
    e.recv_at(mouse(MouseEvent::MouseLeftButtonDown, 50, 60), 1000);
    e.recv_at(mouse(MouseEvent::MouseLeftButtonDown, 50, 60), 1500);
    assert_eq!(e.count_of(Label::DoubleClicks), 0);
}

#[test]
fn double_click_spatial_bound() {
    let mut c = Counter::new(0);
    c.recv_at(mouse(MouseEvent::MouseLeftButtonDown, 50, 60), 1000);
    c.recv_at(mouse(MouseEvent::MouseLeftButtonDown, 55, 60), 1100); // five pixels away in x
    assert_eq!(c.count_of(Label::LeftClicks), 2);
    assert_eq!(c.count_of(Label::DoubleClicks), 0);

    // three pixels of drift in each coordinate stays inside the slop
    let mut d = Counter::new(0);
    d.recv_at(mouse(MouseEvent::MouseLeftButtonDown, 50, 60), 1000);
    d.recv_at(mouse(MouseEvent::MouseLeftButtonDown, 53, 63), 1100);
    assert_eq!(d.count_of(Label::DoubleClicks), 1);

    // four pixels is already too far
    let mut e = Counter::new(0);
    e.recv_at(mouse(MouseEvent::MouseLeftButtonDown, 50, 60), 1000);
    e.recv_at(mouse(MouseEvent::MouseLeftButtonDown, 50, 64), 1100);
    assert_eq!(e.count_of(Label::DoubleClicks), 0);
}

#[test]
fn every_click_becomes_the_new_double_click_baseline() {
    // a rapid click train registers a double click on every adjacent pair
    let mut c = Counter::new(0);
    c.recv_at(mouse(MouseEvent::MouseLeftButtonDown, 10, 10), 1000);
    c.recv_at(mouse(MouseEvent::MouseLeftButtonDown, 10, 10), 1300);
    c.recv_at(mouse(MouseEvent::MouseLeftButtonDown, 10, 10), 1600);
    assert_eq!(c.count_of(Label::LeftClicks), 3);
    assert_eq!(c.count_of(Label::DoubleClicks), 2);
}

#[test]
fn right_clicks_count_without_any_debounce() {
    let mut c = Counter::new(0);
    c.recv_at(mouse(MouseEvent::MouseRightButtonDown, 5, 5), 1000);
    c.recv_at(mouse(MouseEvent::MouseRightButtonDown, 5, 5), 1000);
    c.recv_at(mouse(MouseEvent::MouseRightButtonDown, 5, 5), 1001);
    assert_eq!(c.count_of(Label::RightClicks), 3);
}

#[test]
fn wheel_burst_collapses_to_one_count() {
    let mut c = Counter::new(0);
    c.recv_at(mouse(MouseEvent::MouseWheelRouting, 0, 0), 1000);
    c.recv_at(mouse(MouseEvent::MouseWheelRouting, 0, 0), 1300);
    c.recv_at(mouse(MouseEvent::MouseWheelRouting, 0, 0), 1600);
    c.recv_at(mouse(MouseEvent::MouseWheelRouting, 0, 0), 1799);
    assert_eq!(c.count_of(Label::Wheel), 1);
    // the window is measured from the counted event, not the last raw one
    assert_eq!(c.last_wheel_at, 1000);
}

#[test]
fn wheel_debounce_reopens_after_the_window() {
    let mut c = Counter::new(0);
    c.recv_at(mouse(MouseEvent::MouseWheelRouting, 0, 0), 1000);
    c.recv_at(mouse(MouseEvent::MouseWheelRouting, 0, 0), 1801);
    c.recv_at(mouse(MouseEvent::MouseWheelRouting, 0, 0), 2602);
    assert_eq!(c.count_of(Label::Wheel), 3);

    // exactly the window's length is still inside: the comparison is strict
    let mut d = Counter::new(0);
    d.recv_at(mouse(MouseEvent::MouseWheelRouting, 0, 0), 1000);
    d.recv_at(mouse(MouseEvent::MouseWheelRouting, 0, 0), 1800);
    assert_eq!(d.count_of(Label::Wheel), 1);
}

#[test]
fn wheel_event_at_the_epoch_is_inside_the_initial_window() {
    // a fresh aggregate starts its debounce timestamps at zero, so an
    // event dated zero sits inside the initial window and is dropped
    let mut c = Counter::new(0);
    c.recv_at(mouse(MouseEvent::MouseWheelRouting, 0, 0), 0);
    assert_eq!(c.count_of(Label::Wheel), 0);
    c.recv_at(mouse(MouseEvent::MouseWheelRouting, 0, 0), 801);
    assert_eq!(c.count_of(Label::Wheel), 1);
}

#[test]
fn mouse_moves_debounce_like_wheel_events() {
    let mut c = Counter::new(0);
    c.recv_at(mouse(MouseEvent::MouseMove, 1, 1), 1000);
    c.recv_at(mouse(MouseEvent::MouseMove, 2, 2), 1500);
    assert_eq!(c.count_of(Label::MouseMoves), 1);
    c.recv_at(mouse(MouseEvent::MouseMove, 3, 3), 1801);
    assert_eq!(c.count_of(Label::MouseMoves), 2);
}

#[test]
fn ctrl_latch_makes_and_breaks_combinations() {
    let mut c = Counter::new(0);
    c.recv_at(press(VK_CTRL), 10);
    c.recv_at(press(VK_C), 20);
    assert_eq!(c.count_of(Label::CtrlC), 1);
    assert_eq!(c.count_of(Label::Keystrokes), 2);
    c.recv_at(release(VK_CTRL), 30);
    c.recv_at(press(VK_C), 40);
    assert_eq!(c.count_of(Label::CtrlC), 1); // unchanged: the latch was off
    assert_eq!(c.count_of(Label::Keystrokes), 3);
}

#[test]
fn each_ctrl_combination_has_its_own_counter() {
    let mut c = Counter::new(0);
    c.recv_at(press(VK_CTRL), 10);
    for (i, code) in [VK_C, VK_X, VK_V, VK_Z, VK_Y, VK_S].into_iter().enumerate() {
        c.recv_at(press(code), 20 + i as i64);
    }
    assert_eq!(c.count_of(Label::CtrlC), 1);
    assert_eq!(c.count_of(Label::CtrlX), 1);
    assert_eq!(c.count_of(Label::CtrlV), 1);
    assert_eq!(c.count_of(Label::CtrlZ), 1);
    assert_eq!(c.count_of(Label::CtrlY), 1);
    assert_eq!(c.count_of(Label::CtrlS), 1);
}

#[test]
fn alt_tab_compound_counts_three_ways() {
    let mut c = Counter::new(0);
    c.recv_at(press(VK_ALT), 10);
    c.recv_at(press(VK_TAB), 20);
    assert_eq!(c.count_of(Label::Tab), 1);
    assert_eq!(c.count_of(Label::AltTab), 1);
    assert_eq!(c.count_of(Label::Keystrokes), 2);
    // with Alt released, Tab no longer counts as Alt+Tab
    c.recv_at(release(VK_ALT), 30);
    c.recv_at(press(VK_TAB), 40);
    assert_eq!(c.count_of(Label::Tab), 2);
    assert_eq!(c.count_of(Label::AltTab), 1);
}

#[test]
fn releases_and_reserved_buttons_are_no_ops() {
    let mut c = Counter::new(0);
    c.recv_at(release(65), 10);
    c.recv_at(mouse(MouseEvent::MouseLeftButtonUp, 1, 1), 20);
    c.recv_at(mouse(MouseEvent::MouseRightButtonUp, 1, 1), 30);
    c.recv_at(mouse(MouseEvent::MouseMiddleButtonDown, 1, 1), 40);
    c.recv_at(mouse(MouseEvent::MouseMiddleButtonUp, 1, 1), 50);
    for (label, value) in all_counts(&c) {
        assert_eq!(value, 0, "{:?} moved", label);
    }
}

#[test]
fn clear_zeroes_counters_and_keeps_transient_state() {
    let mut c = Counter::new(42);
    c.recv_at(press(VK_CTRL), 10);
    c.recv_at(press(VK_C), 20);
    c.recv_at(mouse(MouseEvent::MouseLeftButtonDown, 9, 9), 1000);
    c.recv_at(mouse(MouseEvent::MouseWheelRouting, 0, 0), 2000);
    c.recv_at(mouse(MouseEvent::MouseMove, 0, 0), 3000);
    c.clear();
    for (label, value) in all_counts(&c) {
        assert_eq!(value, 0, "{:?} survived clear", label);
    }
    assert_eq!(c.started_at, 42);
    assert!(c.ctrl_down); // still latched: Ctrl was never released
    assert!(!c.alt_down);
    assert_eq!(c.last_left_click, (1000, Point { x: 9, y: 9 }));
    assert_eq!(c.last_wheel_at, 2000);
    assert_eq!(c.last_move_at, 3000);
}

#[test]
fn add_count_starts_at_one_and_increments() {
    let mut c = Counter::new(0);
    c.add_count(Label::Wheel);
    assert_eq!(c.count_of(Label::Wheel), 1);
    c.add_count(Label::Wheel);
    assert_eq!(c.count_of(Label::Wheel), 2);
    assert_eq!(c.count_of(Label::MouseMoves), 0);
}

#[test]
fn headroom_check_sees_a_saturated_counter() {
    let c = Counter::new(0);
    assert!(c.has_headroom());
    let mut counts = vec![0u128; 18];
    counts[3] = u128::MAX;
    let d = Counter {
        started_at: 0,
        counts,
        ctrl_down: false,
        alt_down: false,
        last_left_click: (0, Point { x: 0, y: 0 }),
        last_wheel_at: 0,
        last_move_at: 0,
    };
    assert!(!d.has_headroom());
}

#[test]
fn recv_against_the_system_clock() {
    let mut c = Counter::fresh();
    assert!(c.started_at >= 0);
    if c.has_headroom() {
        c.recv(press(VK_ENTER));
        assert_eq!(c.count_of(Label::Enter), 1);
        assert_eq!(c.count_of(Label::Keystrokes), 1);
    }
}
