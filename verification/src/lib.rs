//! Real-time control core of a keyboard controller: matrix scanning,
//! debouncing, a layered keymap state machine, HID report assembly, bounded
//! event queueing, priority-ordered task dispatch, and a display animator —
//! the portable logic, verified; hardware access stays outside this crate.

use vstd::prelude::*;

pub mod alarm;
pub mod controller;
pub mod debounce;
pub mod display;
pub mod event;
pub mod keymap;
pub mod layout;
pub mod matrix;
pub mod queue;
pub mod report;
pub mod sched;

verus! {

/// Number of rows of the key matrix.
pub const NUM_ROWS: usize = 4;

/// Number of columns of the key matrix.
pub const NUM_COLS: usize = 10;

/// Number of cells of the key matrix.
pub const NUM_KEYS: usize = 40;

/// Period of the matrix scan task, in microseconds.
pub const SCAN_PERIOD_US: u64 = 1000;

/// Period of the display animation task, in microseconds.
pub const DISPLAY_PERIOD_US: u64 = 1700;

/// Consecutive identical raw readings needed before a cell's stable state flips.
pub const DEBOUNCE_THRESHOLD: u16 = 10;

/// Capacity of the scan-to-input work-handoff queue.
pub const QUEUE_CAPACITY: usize = 8;

/// Hardware limit on simultaneous non-modifier key codes in a boot-keyboard report.
pub const REPORT_KEY_CAPACITY: usize = 6;

} // verus!
