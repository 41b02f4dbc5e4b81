//! End-to-end behaviour of the assembled control core.

use keezus::controller::{Controller, OutputAction, RunMode};
use keezus::display::{LINE_STRIDE, NUM_LINES, TOTAL_SCROLL};
use keezus::event::KeyCoord;
use keezus::keymap::{Action, CustomActions, Keymap, KC_Q};
use keezus::matrix::MatrixSnapshot;
use keezus::{DEBOUNCE_THRESHOLD, DISPLAY_PERIOD_US, NUM_KEYS, SCAN_PERIOD_US};

fn snapshot_with(closed: &[(usize, usize)]) -> MatrixSnapshot {
    let mut snap = MatrixSnapshot::new();
    for &(row, col) in closed {
        snap.set(KeyCoord { row, col }, true);
    }
    snap
}

/// Drains the input queue, returning every non-trivial output in order.
fn drain(ctl: &mut Controller, usb_configured: bool) -> Vec<OutputAction> {
    let mut outs = Vec::new();
    while ctl.queued_messages() > 0 {
        let out = ctl.process_next(usb_configured);
        if out != OutputAction::Nothing {
            outs.push(out);
        }
    }
    outs
}

#[test]
fn held_switch_reaches_the_host_after_the_debounce_threshold() {
    let mut ctl = Controller::new(Keymap::qwerty(), 0);
    let closed = snapshot_with(&[(0, 0)]);
    let mut now = 0u64;
    // Nine scan periods: the key is never confirmed, no report changes.
    for _ in 0..(DEBOUNCE_THRESHOLD - 1) {
        now += SCAN_PERIOD_US;
        ctl.on_scan(&closed, now);
        assert!(drain(&mut ctl, true).is_empty());
    }
    // The tenth scan confirms the press; the next tick transmits it.
    now += SCAN_PERIOD_US;
    ctl.on_scan(&closed, now);
    let outs = drain(&mut ctl, true);
    assert_eq!(outs, vec![OutputAction::SendReport]);
    let bytes = ctl.last_report().to_bytes();
    assert_eq!(bytes.as_slice(), &[0, 0, KC_Q, 0, 0, 0, 0, 0]);
}

#[test]
fn unchanged_reports_are_not_retransmitted() {
    let mut ctl = Controller::new(Keymap::qwerty(), 0);
    let closed = snapshot_with(&[(0, 0)]);
    let mut now = 0u64;
    for _ in 0..DEBOUNCE_THRESHOLD {
        now += SCAN_PERIOD_US;
        ctl.on_scan(&closed, now);
        drain(&mut ctl, true);
    }
    // The key stays held: further periods derive the same report and stay
    // silent.
    for _ in 0..5 {
        now += SCAN_PERIOD_US;
        ctl.on_scan(&closed, now);
        assert!(drain(&mut ctl, true).is_empty());
    }
}

#[test]
fn report_for_a_disconnected_host_is_dropped_not_queued() {
    let mut ctl = Controller::new(Keymap::qwerty(), 0);
    let closed = snapshot_with(&[(0, 0)]);
    let mut now = 0u64;
    // No active host session: the report is recorded but never transmitted.
    for _ in 0..DEBOUNCE_THRESHOLD {
        now += SCAN_PERIOD_US;
        ctl.on_scan(&closed, now);
        let outs = drain(&mut ctl, false);
        assert!(outs.is_empty());
    }
    assert_eq!(ctl.last_report().to_bytes()[2], KC_Q);
}

#[test]
fn every_scan_feeds_the_watchdog_and_rearms_the_alarm() {
    let mut ctl = Controller::new(Keymap::qwerty(), 0);
    let open = MatrixSnapshot::new();
    assert_eq!(ctl.watchdog_feed_count(), 0);
    let mut now = 0u64;
    for feeds in 1..=5u64 {
        now += SCAN_PERIOD_US;
        ctl.on_scan(&open, now);
        assert_eq!(ctl.watchdog_feed_count(), feeds);
        let alarm = ctl.scan_alarm_state();
        assert!(alarm.armed);
        // Strictly after "now": the periodic task cannot silently stop.
        assert_eq!(alarm.deadline_us, now + SCAN_PERIOD_US);
        assert!(alarm.deadline_us > now);
        assert!(!alarm.is_due(now));
        assert!(alarm.is_due(now + SCAN_PERIOD_US));
        drain(&mut ctl, true);
    }
}

#[test]
fn display_frames_scroll_and_rearm_their_own_alarm() {
    let mut ctl = Controller::new(Keymap::qwerty(), 0);
    let frame = ctl.on_display(DISPLAY_PERIOD_US);
    assert_eq!(frame.len(), NUM_LINES as usize);
    for (i, line) in frame.iter().enumerate() {
        let offset = (LINE_STRIDE * i as i32) % TOTAL_SCROLL;
        assert_eq!(line.right_y, offset);
        assert_eq!(line.left_y, TOTAL_SCROLL - offset);
        assert_eq!(line.emphasized, i == 0);
    }
    let alarm = ctl.display_alarm_state();
    assert!(alarm.armed);
    assert_eq!(alarm.deadline_us, 2 * DISPLAY_PERIOD_US);
    // The next frame has scrolled by one pixel.
    let frame = ctl.on_display(2 * DISPLAY_PERIOD_US);
    assert_eq!(frame[0].right_y, 1);
    assert_eq!(frame[1].right_y, LINE_STRIDE + 1);
}

#[test]
fn scroll_offset_wraps_at_the_total_height() {
    let mut ctl = Controller::new(Keymap::qwerty(), 0);
    let mut now = 0u64;
    for _ in 0..TOTAL_SCROLL {
        now += DISPLAY_PERIOD_US;
        ctl.on_display(now);
    }
    now += DISPLAY_PERIOD_US;
    let frame = ctl.on_display(now);
    assert_eq!(frame[0].right_y, 0);
}

#[test]
fn custom_action_is_the_last_observable_state_mutation() {
    let mut base = vec![Action::Trans; NUM_KEYS];
    base[0] = Action::Custom(CustomActions::Bootloader);
    let keymap = Keymap::new(vec![base]).expect("well-formed keymap");
    let mut ctl = Controller::new(keymap, 0);
    let closed = snapshot_with(&[(0, 0)]);
    let mut now = 0u64;
    let mut outs = Vec::new();
    for _ in 0..DEBOUNCE_THRESHOLD {
        now += SCAN_PERIOD_US;
        ctl.on_scan(&closed, now);
        outs.extend(drain(&mut ctl, true));
    }
    assert_eq!(outs, vec![OutputAction::EnterUpdateMode]);
    assert_eq!(ctl.mode(), RunMode::UpdateMode);

    // From here on, nothing observable changes in this run.
    let feeds = ctl.watchdog_feed_count();
    let queued = ctl.queued_messages();
    let scan_alarm = ctl.scan_alarm_state();
    let display_alarm = ctl.display_alarm_state();
    now += SCAN_PERIOD_US;
    ctl.on_scan(&closed, now);
    assert_eq!(ctl.process_next(true), OutputAction::Nothing);
    assert!(ctl.on_display(now).is_empty());
    assert_eq!(ctl.watchdog_feed_count(), feeds);
    assert_eq!(ctl.queued_messages(), queued);
    assert_eq!(ctl.scan_alarm_state(), scan_alarm);
    assert_eq!(ctl.display_alarm_state(), display_alarm);
    assert_eq!(ctl.mode(), RunMode::UpdateMode);
}

#[test]
fn transport_retries_exactly_while_nothing_was_accepted() {
    assert!(Controller::retry_after_write(0));
    assert!(!Controller::retry_after_write(1));
    assert!(!Controller::retry_after_write(8));
}

#[test]
fn overflowing_spawns_degrade_gracefully_instead_of_failing() {
    // Scans that are never drained: ticks pile up, and the queue coalesces
    // them instead of failing fatally.
    let mut ctl = Controller::new(Keymap::qwerty(), 0);
    let open = MatrixSnapshot::new();
    let mut now = 0u64;
    for _ in 0..20 {
        now += SCAN_PERIOD_US;
        ctl.on_scan(&open, now);
    }
    assert!(ctl.queued_messages() <= keezus::QUEUE_CAPACITY);
    assert_eq!(ctl.dropped_messages(), 12);
    // The pipeline still works once the consumer catches up.
    drain(&mut ctl, true);
    assert_eq!(ctl.queued_messages(), 0);
}
