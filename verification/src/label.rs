//! The fixed label set: the closed, enumerable list of counter names the
//! aggregate ever tracks. No label outside this set is ever created.
use vstd::prelude::*;
use vstd::string::StringExecFns;

verus! {

/// How many labels the fixed set holds.
pub const LABEL_COUNT: usize = 18;

/// A counter label. The set is closed: five mouse-derived counters, the
/// generic keystroke counter, six Ctrl combinations, Alt+Tab, and five
/// special-key counters.
#[derive(Clone, Copy, PartialEq, Eq, Structural, Debug)]
pub enum Label {
    LeftClicks,
    RightClicks,
    DoubleClicks,
    Wheel,
    MouseMoves,
    Keystrokes,
    CtrlC,
    CtrlX,
    CtrlV,
    CtrlZ,
    CtrlY,
    CtrlS,
    AltTab,
    Backspace,
    Enter,
    Esc,
    Delete,
    Tab,
}

/// The slot a label occupies in the counter table; this is also the
/// display order of the fixed label list.
pub open spec fn slot(l: Label) -> int {
    match l {
        Label::LeftClicks => 0,
        Label::RightClicks => 1,
        Label::DoubleClicks => 2,
        Label::Wheel => 3,
        Label::MouseMoves => 4,
        Label::Keystrokes => 5,
        Label::CtrlC => 6,
        Label::CtrlX => 7,
        Label::CtrlV => 8,
        Label::CtrlZ => 9,
        Label::CtrlY => 10,
        Label::CtrlS => 11,
        Label::AltTab => 12,
        Label::Backspace => 13,
        Label::Enter => 14,
        Label::Esc => 15,
        Label::Delete => 16,
        Label::Tab => 17,
    }
}

/// The label that occupies a slot; the inverse of `slot`.
pub open spec fn label_at(i: int) -> Label {
    if i == 0 {
        Label::LeftClicks
    } else if i == 1 {
        Label::RightClicks
    } else if i == 2 {
        Label::DoubleClicks
    } else if i == 3 {
        Label::Wheel
    } else if i == 4 {
        Label::MouseMoves
    } else if i == 5 {
        Label::Keystrokes
    } else if i == 6 {
        Label::CtrlC
    } else if i == 7 {
        Label::CtrlX
    } else if i == 8 {
        Label::CtrlV
    } else if i == 9 {
        Label::CtrlZ
    } else if i == 10 {
        Label::CtrlY
    } else if i == 11 {
        Label::CtrlS
    } else if i == 12 {
        Label::AltTab
    } else if i == 13 {
        Label::Backspace
    } else if i == 14 {
        Label::Enter
    } else if i == 15 {
        Label::Esc
    } else if i == 16 {
        Label::Delete
    } else {
        Label::Tab
    }
}

/// Every label sits in a slot below `LABEL_COUNT`, and `label_at`
/// inverts `slot`.
pub broadcast proof fn lemma_slot_in_range(l: Label)
    ensures
        0 <= #[trigger] slot(l) < LABEL_COUNT,
        label_at(slot(l)) == l,
{
}

/// Within the table, `slot` inverts `label_at`.
pub proof fn lemma_label_at_slot(i: int)
    requires
        0 <= i < LABEL_COUNT,
    ensures
        slot(label_at(i)) == i,
{
}

/// Distinct labels occupy distinct slots.
pub proof fn lemma_slot_injective(a: Label, b: Label)
    ensures
        slot(a) == slot(b) ==> a == b,
{
    lemma_slot_in_range(a);
    lemma_slot_in_range(b);
}

impl Label {
    /// The slot this label occupies in the counter table.
    pub fn index(&self) -> (i: usize)
        ensures
            i == slot(*self),
    {
        match *self {
            Label::LeftClicks => 0,
            Label::RightClicks => 1,
            Label::DoubleClicks => 2,
            Label::Wheel => 3,
            Label::MouseMoves => 4,
            Label::Keystrokes => 5,
            Label::CtrlC => 6,
            Label::CtrlX => 7,
            Label::CtrlV => 8,
            Label::CtrlZ => 9,
            Label::CtrlY => 10,
            Label::CtrlS => 11,
            Label::AltTab => 12,
            Label::Backspace => 13,
            Label::Enter => 14,
            Label::Esc => 15,
            Label::Delete => 16,
            Label::Tab => 17,
        }
    }

    /// The display name of this label.
    pub open spec fn spec_text(self) -> Seq<char> {
        match self {
            Label::LeftClicks => "left clicks"@,
            Label::RightClicks => "right clicks"@,
            Label::DoubleClicks => "double clicks"@,
            Label::Wheel => "wheel"@,
            Label::MouseMoves => "mouse moves"@,
            Label::Keystrokes => "keystrokes"@,
            Label::CtrlC => "Ctrl+C"@,
            Label::CtrlX => "Ctrl+X"@,
            Label::CtrlV => "Ctrl+V"@,
            Label::CtrlZ => "Ctrl+Z"@,
            Label::CtrlY => "Ctrl+Y"@,
            Label::CtrlS => "Ctrl+S"@,
            Label::AltTab => "Alt+Tab"@,
            Label::Backspace => "Backspace"@,
            Label::Enter => "Enter"@,
            Label::Esc => "Esc"@,
            Label::Delete => "Delete"@,
            Label::Tab => "Tab"@,
        }
    }

    /// The display name of this label, for a renderer to show beside
    /// its value.
    pub fn text(&self) -> (r: String)
        ensures
            r@ == self.spec_text(),
    {
        match *self {
            Label::LeftClicks => String::from_str("left clicks"),
            Label::RightClicks => String::from_str("right clicks"),
            Label::DoubleClicks => String::from_str("double clicks"),
            Label::Wheel => String::from_str("wheel"),
            Label::MouseMoves => String::from_str("mouse moves"),
            Label::Keystrokes => String::from_str("keystrokes"),
            Label::CtrlC => String::from_str("Ctrl+C"),
            Label::CtrlX => String::from_str("Ctrl+X"),
            Label::CtrlV => String::from_str("Ctrl+V"),
            Label::CtrlZ => String::from_str("Ctrl+Z"),
            Label::CtrlY => String::from_str("Ctrl+Y"),
            Label::CtrlS => String::from_str("Ctrl+S"),
            Label::AltTab => String::from_str("Alt+Tab"),
            Label::Backspace => String::from_str("Backspace"),
            Label::Enter => String::from_str("Enter"),
            Label::Esc => String::from_str("Esc"),
            Label::Delete => String::from_str("Delete"),
            Label::Tab => String::from_str("Tab"),
        }
    }

    /// The full fixed label list, in display order: the label in slot
    /// `i` stands at index `i`.
    pub fn all() -> (r: Vec<Label>)
        ensures
            r@.len() == LABEL_COUNT,
            forall|i: int| 0 <= i < LABEL_COUNT ==> #[trigger] r@[i] == label_at(i),
    {
        let mut r: Vec<Label> = Vec::new();
        r.push(Label::LeftClicks);
        r.push(Label::RightClicks);
        r.push(Label::DoubleClicks);
        r.push(Label::Wheel);
        r.push(Label::MouseMoves);
        r.push(Label::Keystrokes);
        r.push(Label::CtrlC);
        r.push(Label::CtrlX);
        r.push(Label::CtrlV);
        r.push(Label::CtrlZ);
        r.push(Label::CtrlY);
        r.push(Label::CtrlS);
        r.push(Label::AltTab);
        r.push(Label::Backspace);
        r.push(Label::Enter);
        r.push(Label::Esc);
        r.push(Label::Delete);
        r.push(Label::Tab);
        r
    }
}

} // verus!
