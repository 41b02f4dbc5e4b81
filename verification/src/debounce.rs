//! The debounce filter. Each cell accumulates consecutive raw readings that
//! disagree with its stable state; only when `threshold` such readings have
//! arrived in a row does the stable state flip, and exactly one key event is
//! emitted for the transition. A reading that agrees with the stable state
//! resets the cell's counter, so isolated noise can never flip a cell.

use vstd::prelude::*;

verus! {

use crate::event::{coord_of_index, KeyEvent, KeyEventKind};
use crate::matrix::MatrixSnapshot;
use crate::NUM_KEYS;

/// The debounce state of one matrix cell: its confirmed stable state and how
/// many consecutive raw readings have disagreed with it.
#[verifier::ext_equal]
pub ghost struct CellState {
    pub stable: bool,
    pub count: int,
}

/// A cell state the debouncer maintains: the counter never reaches the threshold.
pub open spec fn cell_valid(s: CellState, threshold: int) -> bool {
    threshold >= 1 && 0 <= s.count < threshold
}

/// One raw reading makes the cell flip: it disagrees with the stable state and
/// completes a run of `threshold` consecutive disagreeing readings.
pub open spec fn cell_flips(s: CellState, raw: bool, threshold: int) -> bool {
    raw != s.stable && s.count + 1 >= threshold
}

/// The cell state after one raw reading.
pub open spec fn cell_step(s: CellState, raw: bool, threshold: int) -> CellState {
    CellState {
        stable: if cell_flips(s, raw, threshold) {
            raw
        } else {
            s.stable
        },
        count: if raw == s.stable {
            0
        } else if s.count + 1 >= threshold {
            0
        } else {
            s.count + 1
        },
    }
}

/// The cell state after a whole sequence of raw readings, oldest first.
pub open spec fn cell_run(s: CellState, readings: Seq<bool>, threshold: int) -> CellState
    decreases readings.len(),
{
    if readings.len() == 0 {
        s
    } else {
        cell_run(cell_step(s, readings.first(), threshold), readings.drop_first(), threshold)
    }
}

/// Running one more reading at the end steps the state once.
pub proof fn lemma_cell_run_push(s: CellState, readings: Seq<bool>, raw: bool, threshold: int)
    ensures
        cell_run(s, readings.push(raw), threshold) == cell_step(
            cell_run(s, readings, threshold),
            raw,
            threshold,
        ),
    decreases readings.len(),
{
    if readings.len() == 0 {
        reveal_with_fuel(cell_run, 2);
        assert(readings.push(raw).first() == raw);
        assert(readings.push(raw).drop_first() =~= Seq::<bool>::empty());
    } else {
        assert(readings.push(raw).first() == readings.first());
        assert(readings.push(raw).drop_first() =~= readings.drop_first().push(raw));
        lemma_cell_run_push(
            cell_step(s, readings.first(), threshold),
            readings.drop_first(),
            raw,
            threshold,
        );
    }
}

/// A valid cell stays valid under any sequence of readings.
pub proof fn lemma_cell_run_valid(s: CellState, readings: Seq<bool>, threshold: int)
    requires
        cell_valid(s, threshold),
    ensures
        cell_valid(cell_run(s, readings, threshold), threshold),
    decreases readings.len(),
{
    if readings.len() > 0 {
        lemma_cell_run_valid(cell_step(s, readings.first(), threshold), readings.drop_first(), threshold);
    }
}

/// Starting from a settled cell, the counter never exceeds the number of
/// readings seen, and a counter of `c` witnesses that the last `c` readings
/// all disagreed with the current stable state.
pub proof fn lemma_cell_run_count_witness(s: CellState, readings: Seq<bool>, threshold: int)
    requires
        cell_valid(s, threshold),
        s.count == 0,
    ensures
        cell_run(s, readings, threshold).count <= readings.len(),
        forall|j: int|
            readings.len() - cell_run(s, readings, threshold).count <= j < readings.len()
                ==> readings[j] != cell_run(s, readings, threshold).stable,
    decreases readings.len(),
{
    if readings.len() == 0 {
    } else {
        let prefix = readings.drop_last();
        let last = readings.last();
        lemma_cell_run_count_witness(s, prefix, threshold);
        lemma_cell_run_valid(s, prefix, threshold);
        lemma_cell_run_push(s, prefix, last, threshold);
        assert(prefix.push(last) =~= readings);
        let before = cell_run(s, prefix, threshold);
        let after = cell_run(s, readings, threshold);
        assert(after == cell_step(before, last, threshold));
        if last != before.stable && before.count + 1 < threshold {
            assert(after.count == before.count + 1);
            assert forall|j: int|
                readings.len() - after.count <= j < readings.len() implies readings[j]
                != after.stable by {
                if j < readings.len() - 1 {
                    assert(prefix[j] != before.stable);
                    assert(readings[j] == prefix[j]);
                }
            }
        }
    }
}

/// Noise immunity: as long as fewer disagreeing readings than the threshold
/// demands can have accumulated, the stable state cannot change.
pub proof fn lemma_short_run_keeps_stable(s: CellState, readings: Seq<bool>, threshold: int)
    requires
        cell_valid(s, threshold),
        s.count + readings.len() < threshold,
    ensures
        cell_run(s, readings, threshold).stable == s.stable,
    decreases readings.len(),
{
    if readings.len() > 0 {
        lemma_short_run_keeps_stable(
            cell_step(s, readings.first(), threshold),
            readings.drop_first(),
            threshold,
        );
    }
}

/// A cell's stable state changes only at the end of `threshold` consecutive
/// identical raw readings: if processing reading `i` flips the cell, then at
/// least `threshold` readings have arrived, and the last `threshold` of them
/// (positions `i + 1 - threshold` through `i`) all equal the new stable state.
pub proof fn lemma_stable_flip_needs_threshold_run(
    s: CellState,
    readings: Seq<bool>,
    threshold: int,
    i: int,
)
    requires
        cell_valid(s, threshold),
        s.count == 0,
        0 <= i < readings.len(),
        cell_run(s, readings.take(i + 1), threshold).stable != cell_run(
            s,
            readings.take(i),
            threshold,
        ).stable,
    ensures
        threshold <= i + 1,
        forall|j: int|
            i + 1 - threshold <= j <= i ==> readings[j] == cell_run(
                s,
                readings.take(i + 1),
                threshold,
            ).stable,
{
    let before = cell_run(s, readings.take(i), threshold);
    let after = cell_run(s, readings.take(i + 1), threshold);
    lemma_cell_run_push(s, readings.take(i), readings[i], threshold);
    assert(readings.take(i).push(readings[i]) =~= readings.take(i + 1));
    assert(after == cell_step(before, readings[i], threshold));
    lemma_cell_run_valid(s, readings.take(i), threshold);
    lemma_cell_run_count_witness(s, readings.take(i), threshold);
    assert(cell_flips(before, readings[i], threshold));
    assert(before.count == threshold - 1);
    assert(threshold - 1 <= i);
    assert forall|j: int| i + 1 - threshold <= j <= i implies readings[j] == after.stable by {
        if j < i {
            assert(readings.take(i)[j] != before.stable);
            assert(readings.take(i)[j] == readings[j]);
        }
    }
}

/// The key event recording that cell `i` flipped to raw state `closed`.
pub open spec fn transition_event(i: int, closed: bool) -> KeyEvent {
    KeyEvent {
        coord: coord_of_index(i),
        kind: if closed {
            KeyEventKind::Press
        } else {
            KeyEventKind::Release
        },
    }
}

/// The whole debounce state: one cell state per matrix cell.
#[verifier::ext_equal]
pub ghost struct DebouncerModel {
    pub cells: Seq<CellState>,
    pub threshold: int,
}

impl DebouncerModel {
    /// One cell per matrix cell, every counter strictly under the threshold.
    pub open spec fn wf(self) -> bool {
        &&& self.cells.len() == NUM_KEYS
        &&& forall|i: int| 0 <= i < self.cells.len() ==> cell_valid(#[trigger] self.cells[i], self.threshold)
    }
}

/// All cells after one scan of raw readings.
pub open spec fn scan_cells(m: DebouncerModel, raw: Seq<bool>) -> DebouncerModel {
    DebouncerModel {
        cells: Seq::new(m.cells.len(), |i: int| cell_step(m.cells[i], raw[i], m.threshold)),
        threshold: m.threshold,
    }
}

/// The events of one scan among the cells below `n`, in ascending cell order
/// (row-major), one per cell that flips.
pub open spec fn scan_events_upto(m: DebouncerModel, raw: Seq<bool>, n: int) -> Seq<KeyEvent>
    decreases n,
{
    if n <= 0 {
        Seq::empty()
    } else {
        scan_events_upto(m, raw, n - 1) + if cell_flips(m.cells[n - 1], raw[n - 1], m.threshold) {
            seq![transition_event(n - 1, raw[n - 1])]
        } else {
            Seq::empty()
        }
    }
}

/// All events of one scan, in row-major cell order.
pub open spec fn scan_events(m: DebouncerModel, raw: Seq<bool>) -> Seq<KeyEvent> {
    scan_events_upto(m, raw, m.cells.len() as int)
}

/// The debounce state after a sequence of whole-matrix scans, oldest first.
pub open spec fn scan_run(m: DebouncerModel, raws: Seq<Seq<bool>>) -> DebouncerModel
    decreases raws.len(),
{
    if raws.len() == 0 {
        m
    } else {
        scan_run(scan_cells(m, raws.first()), raws.drop_first())
    }
}

/// The readings cell `i` sees across a sequence of scans.
pub open spec fn cell_readings(raws: Seq<Seq<bool>>, i: int) -> Seq<bool> {
    raws.map_values(|r: Seq<bool>| r[i])
}

/// Scanning whole snapshots debounces each cell independently: after any
/// sequence of scans, a cell's state is its initial state run through exactly
/// the readings that this cell saw. Through the run lemmas above, a cell's
/// stable state therefore changes only after the threshold count of
/// consecutive identical raw readings of that cell.
pub proof fn lemma_scan_run_per_cell(m: DebouncerModel, raws: Seq<Seq<bool>>, i: int)
    requires
        0 <= i < m.cells.len(),
    ensures
        scan_run(m, raws).cells.len() == m.cells.len(),
        scan_run(m, raws).threshold == m.threshold,
        scan_run(m, raws).cells[i] == cell_run(m.cells[i], cell_readings(raws, i), m.threshold),
    decreases raws.len(),
{
    if raws.len() == 0 {
        assert(cell_readings(raws, i) =~= Seq::<bool>::empty());
    } else {
        let m1 = scan_cells(m, raws.first());
        assert(m1.cells[i] == cell_step(m.cells[i], raws.first()[i], m.threshold));
        lemma_scan_run_per_cell(m1, raws.drop_first(), i);
        assert(cell_readings(raws.drop_first(), i) =~= cell_readings(raws, i).drop_first());
        assert(cell_readings(raws, i).first() == raws.first()[i]);
    }
}

/// The debounce filter over the whole matrix.
pub struct Debouncer {
    stable: Vec<bool>,
    count: Vec<u16>,
    threshold: u16,
}

impl View for Debouncer {
    type V = DebouncerModel;

    closed spec fn view(&self) -> DebouncerModel {
        DebouncerModel {
            cells: Seq::new(
                self.stable@.len(),
                |i: int| CellState { stable: self.stable@[i], count: self.count@[i] as int },
            ),
            threshold: self.threshold as int,
        }
    }
}

impl Debouncer {
    /// The vectors cover the matrix and every counter is under the threshold.
    pub closed spec fn wf(&self) -> bool {
        &&& self.stable@.len() == NUM_KEYS
        &&& self.count@.len() == NUM_KEYS
        &&& self.threshold >= 1
        &&& forall|i: int| 0 <= i < self.count@.len() ==> (#[trigger] self.count@[i]) < self.threshold
    }

    /// A fresh debouncer: every cell stable in state `initial`, counters zero.
    pub fn new(initial: bool, threshold: u16) -> (r: Debouncer)
        requires
            threshold >= 1,
        ensures
            r.wf(),
            r@.threshold == threshold,
            r@.cells.len() == NUM_KEYS,
            forall|i: int| 0 <= i < NUM_KEYS ==> r@.cells[i] == (CellState {
                stable: initial,
                count: 0,
            }),
    {
        let mut stable: Vec<bool> = Vec::new();
        let mut count: Vec<u16> = Vec::new();
        let mut i: usize = 0;
        while i < NUM_KEYS
            invariant
                i <= NUM_KEYS,
                stable@.len() == i,
                count@.len() == i,
                forall|j: int| 0 <= j < i ==> stable@[j] == initial,
                forall|j: int| 0 <= j < i ==> count@[j] == 0,
            decreases NUM_KEYS - i,
        {
            stable.push(initial);
            count.push(0);
            i = i + 1;
        }
        Debouncer { stable, count, threshold }
    }

    /// Processes one raw snapshot: steps every cell and returns the key events
    /// of the cells that flipped, in row-major coordinate order.
    pub fn scan(&mut self, snapshot: &MatrixSnapshot) -> (events: Vec<KeyEvent>)
        requires
            old(self).wf(),
            snapshot.wf(),
        ensures
            final(self).wf(),
            final(self)@ == scan_cells(old(self)@, snapshot@),
            events@ == scan_events(old(self)@, snapshot@),
            forall|k: int| 0 <= k < events@.len() ==> (#[trigger] events@[k]).wf(),
    {
        let ghost m0 = self@;
        let ghost raw = snapshot@;
        let mut events: Vec<KeyEvent> = Vec::new();
        let mut i: usize = 0;
        while i < NUM_KEYS
            invariant
                i <= NUM_KEYS,
                self.threshold == old(self).threshold,
                self.threshold >= 1,
                self.stable@.len() == NUM_KEYS,
                self.count@.len() == NUM_KEYS,
                snapshot.wf(),
                snapshot@ == raw,
                m0.cells.len() == NUM_KEYS,
                m0.threshold == self.threshold,
                forall|j: int|
                    0 <= j < i ==> (#[trigger] self@.cells[j]) == cell_step(
                        m0.cells[j],
                        raw[j],
                        m0.threshold,
                    ),
                forall|j: int| i <= j < NUM_KEYS ==> (#[trigger] self@.cells[j]) == m0.cells[j],
                forall|j: int| 0 <= j < NUM_KEYS ==> (#[trigger] self.count@[j]) < self.threshold,
                events@ == scan_events_upto(m0, raw, i as int),
                forall|k: int| 0 <= k < events@.len() ==> (#[trigger] events@[k]).wf(),
            decreases NUM_KEYS - i,
        {
            let ghost snap = self@;
            let ghost events0 = events@;
            let raw_i = snapshot.get_at(i);
            let stable_i = self.stable[i];
            let count_i = self.count[i];
            let flips = raw_i != stable_i && count_i + 1 >= self.threshold;
            let new_count: u16 = if raw_i == stable_i {
                0
            } else if count_i + 1 >= self.threshold {
                0
            } else {
                count_i + 1
            };
            proof {
                assert(snap.cells[i as int] == m0.cells[i as int]);
                assert(snap.cells[i as int] == (CellState {
                    stable: stable_i,
                    count: count_i as int,
                }));
                assert(flips == cell_flips(m0.cells[i as int], raw[i as int], m0.threshold));
            }
            if flips {
                self.stable.set(i, raw_i);
                proof {
                    crate::event::lemma_coord_index_bijection(i as int);
                }
                events.push(KeyEvent {
                    coord: crate::event::KeyCoord { row: i / crate::NUM_COLS, col: i % crate::NUM_COLS },
                    kind: if raw_i {
                        KeyEventKind::Press
                    } else {
                        KeyEventKind::Release
                    },
                });
                proof {
                    assert(events@ =~= events0 + seq![transition_event(i as int, raw[i as int])]);
                }
            }
            self.count.set(i, new_count);
            i = i + 1;
            proof {
                let iprev = i - 1;
                assert forall|j: int| 0 <= j < i implies (#[trigger] self@.cells[j]) == cell_step(
                    m0.cells[j],
                    raw[j],
                    m0.threshold,
                ) by {
                    if j == iprev {
                        assert(self@.cells[j] == (CellState {
                            stable: self.stable@[j],
                            count: self.count@[j] as int,
                        }));
                    } else {
                        assert(self@.cells[j] == snap.cells[j]);
                        assert(snap.cells[j] == cell_step(m0.cells[j], raw[j], m0.threshold));
                    }
                }
                assert forall|j: int| i <= j < NUM_KEYS implies (#[trigger] self@.cells[j])
                    == m0.cells[j] by {
                    assert(self@.cells[j] == snap.cells[j]);
                    assert(snap.cells[j] == m0.cells[j]);
                }
                assert(events@ =~= scan_events_upto(m0, raw, i as int));
            }
        }
        proof {
            assert(self@ =~= scan_cells(m0, raw));
        }
        events
    }

    /// The confirmed stable state of cell `i`.
    pub fn stable_at(&self, i: usize) -> (r: bool)
        requires
            self.wf(),
            i < NUM_KEYS,
        ensures
            r == self@.cells[i as int].stable,
    {
        self.stable[i]
    }
}

} // verus!
