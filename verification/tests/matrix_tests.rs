//! Behaviour of the raw matrix snapshot.

use keezus::event::KeyCoord;
use keezus::matrix::MatrixSnapshot;
use keezus::{NUM_COLS, NUM_ROWS};

#[test]
fn fresh_snapshot_has_every_contact_open() {
    let snap = MatrixSnapshot::new();
    for row in 0..NUM_ROWS {
        for col in 0..NUM_COLS {
            assert!(!snap.get(KeyCoord { row, col }));
        }
    }
}

#[test]
fn set_changes_exactly_the_addressed_cell() {
    let mut snap = MatrixSnapshot::new();
    snap.set(KeyCoord { row: 2, col: 7 }, true);
    for row in 0..NUM_ROWS {
        for col in 0..NUM_COLS {
            let expected = row == 2 && col == 7;
            assert_eq!(snap.get(KeyCoord { row, col }), expected);
        }
    }
}

#[test]
fn flat_indexing_is_row_major() {
    let mut snap = MatrixSnapshot::new();
    snap.set(KeyCoord { row: 1, col: 3 }, true);
    assert!(snap.get_at(1 * NUM_COLS + 3));
    assert!(!snap.get_at(0));
}
