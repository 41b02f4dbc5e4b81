//! Behaviour of the layered keymap state machine.

use keezus::event::{KeyCoord, KeyEvent, KeyEventKind};
use keezus::keymap::{Action, CustomActions, Keymap, KC_A, KC_B, KC_NO, KC_Q};
use keezus::layout::LayoutState;
use keezus::report::HidReport;
use keezus::NUM_KEYS;

fn press(row: usize, col: usize) -> KeyEvent {
    KeyEvent { coord: KeyCoord { row, col }, kind: KeyEventKind::Press }
}

fn release(row: usize, col: usize) -> KeyEvent {
    KeyEvent { coord: KeyCoord { row, col }, kind: KeyEventKind::Release }
}

fn blank_layer() -> Vec<Action> {
    vec![Action::Trans; NUM_KEYS]
}

#[test]
fn press_then_release_is_a_round_trip() {
    let mut layout = LayoutState::new(Keymap::qwerty());
    let before = HidReport::build(layout.held_entries());
    layout.key_event(press(0, 0));
    assert_eq!(layout.held_entries().len(), 1);
    // The report transiently includes the key...
    let during = HidReport::build(layout.held_entries());
    assert_eq!(during.key_codes().as_slice(), &[KC_Q]);
    layout.key_event(release(0, 0));
    // ...but the layout state is exactly what it was.
    assert_eq!(layout.held_entries().len(), 0);
    let after = HidReport::build(layout.held_entries());
    assert!(before.same_as(&after));
    assert!(!layout.holds(KeyCoord { row: 0, col: 0 }));
}

#[test]
fn pressing_an_already_held_coordinate_is_ignored() {
    let mut layout = LayoutState::new(Keymap::qwerty());
    layout.key_event(press(1, 2));
    layout.key_event(press(1, 2));
    assert_eq!(layout.held_entries().len(), 1);
    layout.key_event(release(1, 2));
    assert_eq!(layout.held_entries().len(), 0);
}

#[test]
fn releasing_an_unheld_coordinate_is_a_no_op() {
    let mut layout = LayoutState::new(Keymap::qwerty());
    layout.key_event(release(2, 2));
    assert_eq!(layout.held_entries().len(), 0);
}

#[test]
fn layer_shift_shadows_the_base_layer_while_held() {
    let mut base = blank_layer();
    base[0] = Action::Key(KC_A);
    base[1] = Action::LayerShift(1);
    let mut upper = blank_layer();
    upper[0] = Action::Key(KC_B);
    let keymap = Keymap::new(vec![base, upper]).expect("well-formed keymap");
    let mut layout = LayoutState::new(keymap);

    // Without the shift, the base action governs.
    layout.key_event(press(0, 0));
    assert_eq!(layout.held_entries()[0].action, Action::Key(KC_A));
    layout.key_event(release(0, 0));

    // With the shift held, the upper layer shadows the base.
    layout.key_event(press(0, 1));
    layout.key_event(press(0, 0));
    assert_eq!(layout.held_entries()[1].action, Action::Key(KC_B));

    // The resolved action sticks to the key: releasing the shift first does
    // not change what the release of the key undoes.
    layout.key_event(release(0, 1));
    layout.key_event(release(0, 0));
    assert_eq!(layout.held_entries().len(), 0);
}

#[test]
fn transparent_entries_fall_through_to_the_base_layer() {
    let mut base = blank_layer();
    base[0] = Action::Key(KC_A);
    base[1] = Action::LayerShift(1);
    let upper = blank_layer();
    let keymap = Keymap::new(vec![base, upper]).expect("well-formed keymap");
    let mut layout = LayoutState::new(keymap);
    layout.key_event(press(0, 1));
    layout.key_event(press(0, 0));
    // The upper layer is transparent at (0, 0): the base action governs.
    assert_eq!(layout.held_entries()[1].action, Action::Key(KC_A));
}

#[test]
fn transparent_base_resolves_to_the_functional_no_op() {
    let mut layout = LayoutState::new(Keymap::qwerty());
    // (3, 2) is a transparent placeholder on the QWERTY layer.
    layout.key_event(press(3, 2));
    assert_eq!(layout.held_entries()[0].action, Action::Key(KC_NO));
}

#[test]
fn custom_action_becomes_due_and_fires_once() {
    let mut base = blank_layer();
    base[5] = Action::Custom(CustomActions::Bootloader);
    let keymap = Keymap::new(vec![base]).expect("well-formed keymap");
    let mut layout = LayoutState::new(keymap);
    assert_eq!(layout.tick(), None);
    layout.key_event(press(0, 5));
    assert_eq!(layout.tick(), Some(CustomActions::Bootloader));
    // Handed out once; the next tick has nothing due.
    assert_eq!(layout.tick(), None);
}

#[test]
fn releasing_the_custom_key_before_a_tick_cancels_it() {
    let mut base = blank_layer();
    base[5] = Action::Custom(CustomActions::Bootloader);
    let keymap = Keymap::new(vec![base]).expect("well-formed keymap");
    let mut layout = LayoutState::new(keymap);
    layout.key_event(press(0, 5));
    layout.key_event(release(0, 5));
    assert_eq!(layout.tick(), None);
}

#[test]
fn keymap_rejects_a_dangling_layer_shift() {
    let mut base = blank_layer();
    base[0] = Action::LayerShift(3);
    assert!(Keymap::new(vec![base]).is_none());
}

#[test]
fn keymap_rejects_a_short_layer() {
    assert!(Keymap::new(vec![vec![Action::Trans; NUM_KEYS - 1]]).is_none());
    assert!(Keymap::new(vec![]).is_none());
}
