//! Behaviour of the debounce filter, scan by scan.

use keezus::debounce::Debouncer;
use keezus::event::{KeyCoord, KeyEvent, KeyEventKind};
use keezus::matrix::MatrixSnapshot;
use keezus::{DEBOUNCE_THRESHOLD, NUM_COLS};

fn snapshot_with(closed: &[(usize, usize)]) -> MatrixSnapshot {
    let mut snap = MatrixSnapshot::new();
    for &(row, col) in closed {
        snap.set(KeyCoord { row, col }, true);
    }
    snap
}

#[test]
fn nine_scans_closed_then_reopen_produces_no_events() {
    // Scan period 1 ms, threshold 10: a switch closed for 9 ms then reopened
    // is never confirmed stable.
    let mut deb = Debouncer::new(false, DEBOUNCE_THRESHOLD);
    let closed = snapshot_with(&[(1, 3)]);
    let open = MatrixSnapshot::new();
    for _ in 0..9 {
        let events = deb.scan(&closed);
        assert!(events.is_empty());
    }
    let events = deb.scan(&open);
    assert!(events.is_empty());
    // And it stays quiet afterwards.
    for _ in 0..9 {
        let events = deb.scan(&open);
        assert!(events.is_empty());
    }
}

#[test]
fn ten_scans_closed_produce_exactly_one_press_on_the_tenth() {
    let mut deb = Debouncer::new(false, DEBOUNCE_THRESHOLD);
    let closed = snapshot_with(&[(1, 3)]);
    for scan in 0..9 {
        let events = deb.scan(&closed);
        assert!(events.is_empty(), "no event before the threshold (scan {})", scan);
    }
    let events = deb.scan(&closed);
    assert_eq!(events.len(), 1);
    assert_eq!(
        events[0],
        KeyEvent { coord: KeyCoord { row: 1, col: 3 }, kind: KeyEventKind::Press }
    );
    // Holding the key longer emits nothing further.
    let events = deb.scan(&closed);
    assert!(events.is_empty());
}

#[test]
fn single_sample_noise_never_flips_stable_state() {
    let mut deb = Debouncer::new(false, DEBOUNCE_THRESHOLD);
    let closed = snapshot_with(&[(0, 0)]);
    let open = MatrixSnapshot::new();
    for _ in 0..50 {
        assert!(deb.scan(&closed).is_empty());
        assert!(deb.scan(&open).is_empty());
    }
    assert!(!deb.stable_at(0));
}

#[test]
fn agreeing_reading_resets_the_counter() {
    let mut deb = Debouncer::new(false, DEBOUNCE_THRESHOLD);
    let closed = snapshot_with(&[(2, 5)]);
    let open = MatrixSnapshot::new();
    for _ in 0..9 {
        assert!(deb.scan(&closed).is_empty());
    }
    // One open reading resets the run; nine more closed readings are again
    // one short of the threshold.
    assert!(deb.scan(&open).is_empty());
    for _ in 0..9 {
        assert!(deb.scan(&closed).is_empty());
    }
    let events = deb.scan(&closed);
    assert_eq!(events.len(), 1);
}

#[test]
fn release_needs_the_threshold_too() {
    let mut deb = Debouncer::new(false, DEBOUNCE_THRESHOLD);
    let closed = snapshot_with(&[(3, 9)]);
    let open = MatrixSnapshot::new();
    for _ in 0..10 {
        deb.scan(&closed);
    }
    assert!(deb.stable_at(3 * NUM_COLS + 9));
    for _ in 0..9 {
        assert!(deb.scan(&open).is_empty());
    }
    let events = deb.scan(&open);
    assert_eq!(events.len(), 1);
    assert_eq!(
        events[0],
        KeyEvent { coord: KeyCoord { row: 3, col: 9 }, kind: KeyEventKind::Release }
    );
}

#[test]
fn simultaneous_transitions_emit_in_row_major_order() {
    let mut deb = Debouncer::new(false, DEBOUNCE_THRESHOLD);
    let closed = snapshot_with(&[(2, 1), (0, 7), (1, 4)]);
    for _ in 0..9 {
        assert!(deb.scan(&closed).is_empty());
    }
    let events = deb.scan(&closed);
    assert_eq!(events.len(), 3);
    assert_eq!(events[0].coord, KeyCoord { row: 0, col: 7 });
    assert_eq!(events[1].coord, KeyCoord { row: 1, col: 4 });
    assert_eq!(events[2].coord, KeyCoord { row: 2, col: 1 });
    for e in &events {
        assert_eq!(e.kind, KeyEventKind::Press);
    }
}
