//! Round-trip tests for the fixed binary encoding, and the decoder's
//! rejection of malformed buffers.
use keyboard_counter::codec::ENCODED_LEN;
use keyboard_counter::counter::{Counter, VK_ALT, VK_CTRL, VK_TAB};
use keyboard_counter::event::{Event, KeyEvent, MouseEvent, Point};
use keyboard_counter::label::Label;

fn assert_same_state(a: &Counter, b: &Counter) {
    assert_eq!(a.started_at, b.started_at);
    for l in Label::all() {
        assert_eq!(a.count_of(l), b.count_of(l), "{:?} differs", l);
    }
    assert_eq!(a.ctrl_down, b.ctrl_down);
    assert_eq!(a.alt_down, b.alt_down);
    assert_eq!(a.last_left_click, b.last_left_click);
    assert_eq!(a.last_wheel_at, b.last_wheel_at);
    assert_eq!(a.last_move_at, b.last_move_at);
}

#[test]
fn round_trip_preserves_every_field() {
    let mut c = Counter::new(1_700_000_000_000);
    c.recv_at(Event::KeyEvent(KeyEvent::KeyPress(VK_CTRL)), 100);
    c.recv_at(Event::KeyEvent(KeyEvent::KeyPress(86)), 200); // Ctrl+V
    c.recv_at(Event::KeyEvent(KeyEvent::KeyPress(VK_ALT)), 300);
    c.recv_at(Event::KeyEvent(KeyEvent::KeyPress(VK_TAB)), 400);
    c.recv_at(Event::MouseEvent((MouseEvent::MouseLeftButtonDown, Point { x: -25, y: 40 })), 1000);
    c.recv_at(Event::MouseEvent((MouseEvent::MouseWheelRouting, Point { x: 0, y: 0 })), 2000);
    c.recv_at(Event::MouseEvent((MouseEvent::MouseMove, Point { x: 3, y: 4 })), 3000);
    let bytes = c.to_bytes();
    assert_eq!(bytes.len(), ENCODED_LEN);
    let d = Counter::from_bytes(&bytes).expect("a round trip must decode");
    assert_same_state(&c, &d);
}

#[test]
fn round_trip_of_a_fresh_aggregate() {
    let c = Counter::new(0);
    let d = Counter::from_bytes(&c.to_bytes()).expect("a round trip must decode");
    assert_same_state(&c, &d);
}

#[test]
fn round_trip_keeps_negative_coordinates() {
    let mut c = Counter::new(7);
    let pt = Point { x: -2_000_000_000, y: 2_000_000_000 };
    c.recv_at(Event::MouseEvent((MouseEvent::MouseLeftButtonDown, pt)), 500);
    let d = Counter::from_bytes(&c.to_bytes()).expect("a round trip must decode");
    assert_eq!(d.last_left_click, (500, pt));
}

#[test]
fn round_trip_keeps_large_counter_values() {
    let mut counts = vec![0u128; 18];
    counts[0] = u128::MAX;
    counts[17] = 1u128 << 100;
    let c = Counter {
        started_at: 12,
        counts,
        ctrl_down: true,
        alt_down: true,
        last_left_click: (34, Point { x: 5, y: 6 }),
        last_wheel_at: 56,
        last_move_at: 78,
    };
    let d = Counter::from_bytes(&c.to_bytes()).expect("a round trip must decode");
    assert_same_state(&c, &d);
}

#[test]
fn a_buffer_of_the_wrong_length_decodes_to_nothing() {
    assert!(Counter::from_bytes(&Vec::new()).is_none());
    assert!(Counter::from_bytes(&vec![0u8; ENCODED_LEN - 1]).is_none());
    assert!(Counter::from_bytes(&vec![0u8; ENCODED_LEN + 1]).is_none());
}

#[test]
fn a_buffer_spelling_a_negative_timestamp_decodes_to_nothing() {
    let mut bytes = vec![0u8; ENCODED_LEN];
    bytes[7] = 0x80; // the window-start field reads back as a negative signed value
    assert!(Counter::from_bytes(&bytes).is_none());
}

#[test]
fn an_all_zero_buffer_decodes_to_zero_counters() {
    let bytes = vec![0u8; ENCODED_LEN];
    let c = Counter::from_bytes(&bytes).expect("zeroes spell a well-formed aggregate");
    assert_eq!(c.started_at, 0);
    for l in Label::all() {
        assert_eq!(c.count_of(l), 0);
    }
    assert!(!c.ctrl_down);
    assert!(!c.alt_down);
    // an all-zero coordinate field reads back through the bias
    assert_eq!(c.last_left_click, (0, Point { x: i32::MIN, y: i32::MIN }));
    assert_eq!(c.last_wheel_at, 0);
    assert_eq!(c.last_move_at, 0);
}
