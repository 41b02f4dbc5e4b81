//! Behaviour of the HID report builder.

use keezus::event::{KeyCoord, KeyEvent, KeyEventKind};
use keezus::keymap::{Keymap, KC_A, KC_E, KC_Q, KC_R, KC_S, KC_T, KC_W, KC_Y};
use keezus::layout::LayoutState;
use keezus::report::HidReport;
use keezus::REPORT_KEY_CAPACITY;

fn press(row: usize, col: usize) -> KeyEvent {
    KeyEvent { coord: KeyCoord { row, col }, kind: KeyEventKind::Press }
}

fn release(row: usize, col: usize) -> KeyEvent {
    KeyEvent { coord: KeyCoord { row, col }, kind: KeyEventKind::Release }
}

#[test]
fn seven_keys_report_the_six_earliest() {
    let mut layout = LayoutState::new(Keymap::qwerty());
    // Q W E R T Y on the top row, then A on the home row: seven distinct keys.
    for col in 0..6 {
        layout.key_event(press(0, col));
    }
    layout.key_event(press(1, 0));
    let report = HidReport::build(layout.held_entries());
    assert_eq!(report.key_codes().len(), REPORT_KEY_CAPACITY);
    assert_eq!(report.key_codes().as_slice(), &[KC_Q, KC_W, KC_E, KC_R, KC_T, KC_Y]);
    // The newest key (A) was silently dropped, not any earlier one.
    assert!(!report.key_codes().contains(&KC_A));
}

#[test]
fn releasing_an_early_key_lets_a_later_one_in() {
    let mut layout = LayoutState::new(Keymap::qwerty());
    for col in 0..7 {
        layout.key_event(press(0, col));
    }
    // Q leaves; rebuilding from scratch now finds room for U.
    layout.key_event(release(0, 0));
    let report = HidReport::build(layout.held_entries());
    assert_eq!(report.key_codes().as_slice(), &[KC_W, KC_E, KC_R, KC_T, KC_Y, 24u8]);
}

#[test]
fn modifiers_set_bitmask_bits_not_key_slots() {
    let mut layout = LayoutState::new(Keymap::qwerty());
    layout.key_event(press(3, 0)); // left GUI
    layout.key_event(press(3, 1)); // left alt
    layout.key_event(press(3, 8)); // right control
    let report = HidReport::build(layout.held_entries());
    assert_eq!(report.key_codes().len(), 0);
    // LGui = bit 3, LAlt = bit 2, RCtrl = bit 4.
    assert_eq!(report.modifiers(), 8 | 4 | 16);
}

#[test]
fn placeholders_and_no_op_keys_contribute_nothing() {
    let mut layout = LayoutState::new(Keymap::qwerty());
    layout.key_event(press(3, 2)); // transparent placeholder
    layout.key_event(press(3, 9)); // functional no-op key
    let report = HidReport::build(layout.held_entries());
    assert_eq!(report.key_codes().len(), 0);
    assert_eq!(report.modifiers(), 0);
}

#[test]
fn report_bytes_follow_the_boot_keyboard_format() {
    let mut layout = LayoutState::new(Keymap::qwerty());
    layout.key_event(press(0, 0)); // Q
    layout.key_event(press(1, 1)); // S
    layout.key_event(press(3, 0)); // left GUI
    let report = HidReport::build(layout.held_entries());
    let bytes = report.to_bytes();
    assert_eq!(bytes.as_slice(), &[8, 0, KC_Q, KC_S, 0, 0, 0, 0]);
}

#[test]
fn empty_report_bytes_are_all_zero() {
    let report = HidReport::new();
    assert_eq!(report.to_bytes().as_slice(), &[0u8; 8]);
}

#[test]
fn report_comparison_detects_content_change() {
    let mut layout = LayoutState::new(Keymap::qwerty());
    let empty = HidReport::new();
    layout.key_event(press(0, 3)); // R
    let with_r = HidReport::build(layout.held_entries());
    assert!(!with_r.same_as(&empty));
    layout.key_event(release(0, 3));
    let emptied = HidReport::build(layout.held_entries());
    assert!(emptied.same_as(&empty));
}
