//! Tests for the event model, the fixed label set, and the storage
//! path.
use keyboard_counter::event::{KeyEvent, MouseEvent};
use keyboard_counter::label::Label;
use keyboard_counter::storage::get_storage_path;

#[test]
fn mouse_codes_decode_to_their_events() {
    assert_eq!(MouseEvent::from_code(0x200), Some(MouseEvent::MouseMove));
    assert_eq!(MouseEvent::from_code(0x201), Some(MouseEvent::MouseLeftButtonDown));
    assert_eq!(MouseEvent::from_code(0x202), Some(MouseEvent::MouseLeftButtonUp));
    assert_eq!(MouseEvent::from_code(0x204), Some(MouseEvent::MouseRightButtonDown));
    assert_eq!(MouseEvent::from_code(0x205), Some(MouseEvent::MouseRightButtonUp));
    assert_eq!(MouseEvent::from_code(0x20A), Some(MouseEvent::MouseWheelRouting));
    assert_eq!(MouseEvent::from_code(0x2B), Some(MouseEvent::MouseMiddleButtonDown));
    assert_eq!(MouseEvent::from_code(0x20C), Some(MouseEvent::MouseMiddleButtonUp));
}

#[test]
fn unknown_mouse_codes_decode_to_nothing() {
    assert_eq!(MouseEvent::from_code(0), None);
    assert_eq!(MouseEvent::from_code(0x203), None);
    assert_eq!(MouseEvent::from_code(-1), None);
}

#[test]
fn keyboard_messages_decode_to_presses_and_releases() {
    assert_eq!(KeyEvent::from_message(0x100, 65), Some(KeyEvent::KeyPress(65)));
    assert_eq!(KeyEvent::from_message(0x104, 9), Some(KeyEvent::KeyPress(9)));
    assert_eq!(KeyEvent::from_message(0x101, 65), Some(KeyEvent::KeyUp(65)));
    assert_eq!(KeyEvent::from_message(0x105, 9), Some(KeyEvent::KeyUp(9)));
    assert_eq!(KeyEvent::from_message(0x102, 65), None);
}

#[test]
fn the_fixed_label_set_holds_eighteen_distinct_labels() {
    let all = Label::all();
    assert_eq!(all.len(), 18);
    for (i, a) in all.iter().enumerate() {
        assert_eq!(a.index(), i);
        for b in all.iter().skip(i + 1) {
            assert_ne!(a, b);
        }
    }
}

#[test]
fn label_texts_name_the_counters() {
    assert_eq!(Label::LeftClicks.text(), "left clicks");
    assert_eq!(Label::RightClicks.text(), "right clicks");
    assert_eq!(Label::DoubleClicks.text(), "double clicks");
    assert_eq!(Label::Wheel.text(), "wheel");
    assert_eq!(Label::MouseMoves.text(), "mouse moves");
    assert_eq!(Label::Keystrokes.text(), "keystrokes");
    assert_eq!(Label::CtrlC.text(), "Ctrl+C");
    assert_eq!(Label::CtrlX.text(), "Ctrl+X");
    assert_eq!(Label::CtrlV.text(), "Ctrl+V");
    assert_eq!(Label::CtrlZ.text(), "Ctrl+Z");
    assert_eq!(Label::CtrlY.text(), "Ctrl+Y");
    assert_eq!(Label::CtrlS.text(), "Ctrl+S");
    assert_eq!(Label::AltTab.text(), "Alt+Tab");
    assert_eq!(Label::Backspace.text(), "Backspace");
    assert_eq!(Label::Enter.text(), "Enter");
    assert_eq!(Label::Esc.text(), "Esc");
    assert_eq!(Label::Delete.text(), "Delete");
    assert_eq!(Label::Tab.text(), "Tab");
}

#[test]
fn the_storage_path_joins_the_directory_and_the_file_name() {
    assert_eq!(get_storage_path("/tmp/appdir"), "/tmp/appdir/keyboard-counter.bin");
    assert_eq!(get_storage_path(""), "/keyboard-counter.bin");
}
