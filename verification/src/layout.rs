//! The layered keymap state machine. It consumes key events and periodic
//! ticks: a press resolves the coordinate through the active layer stack and
//! records the resolved action as held; a release undoes exactly what the
//! matching press did; a tick hands a due custom action back to the caller.

use vstd::prelude::*;

verus! {

use crate::event::{index_of_coord, KeyCoord, KeyEvent, KeyEventKind};
use crate::keymap::{layers_wf, Action, CustomActions, Keymap, KC_NO};
use crate::NUM_KEYS;

/// A coordinate currently held down, together with the action that was
/// resolved for it when it was pressed.
#[derive(Clone, Copy, Debug, PartialEq, Eq, Structural)]
pub struct HeldKey {
    pub coord: KeyCoord,
    pub action: Action,
}

/// A custom action that has become due but has not yet been handed out.
#[derive(Clone, Copy, Debug, PartialEq, Eq, Structural)]
pub struct PendingCustom {
    pub coord: KeyCoord,
    pub action: CustomActions,
}

/// The mathematical state of the layout engine.
#[verifier::ext_equal]
pub ghost struct LayoutModel {
    pub layers: Seq<Seq<Action>>,
    pub held: Seq<HeldKey>,
    pub pending: Option<PendingCustom>,
}

/// Some held entry sits at coordinate `c`.
pub open spec fn holds_coord(held: Seq<HeldKey>, c: KeyCoord) -> bool {
    exists|i: int| 0 <= i < held.len() && (#[trigger] held[i]).coord == c
}

/// The entries among the first `n` of `held` whose coordinate is not `c`,
/// in order.
pub open spec fn kept_upto(held: Seq<HeldKey>, c: KeyCoord, n: int) -> Seq<HeldKey>
    decreases n,
{
    if n <= 0 {
        Seq::empty()
    } else {
        kept_upto(held, c, n - 1) + if held[n - 1].coord != c {
            seq![held[n - 1]]
        } else {
            Seq::empty()
        }
    }
}

/// `held` with every entry at coordinate `c` removed.
pub open spec fn held_remove(held: Seq<HeldKey>, c: KeyCoord) -> Seq<HeldKey> {
    kept_upto(held, c, held.len() as int)
}

/// The action the layer stack resolves for cell `idx`: the most recently
/// pressed layer-shift key decides first; transparent entries defer to the
/// layers below, and finally to the base layer, where a transparent entry
/// resolves to the functional no-op key.
pub open spec fn resolve_in(layers: Seq<Seq<Action>>, held: Seq<HeldKey>, idx: int) -> Action
    decreases held.len(),
{
    if held.len() == 0 {
        if layers[0][idx] is Trans {
            Action::Key(KC_NO)
        } else {
            layers[0][idx]
        }
    } else {
        match held.last().action {
            Action::LayerShift(l) => {
                if layers[l as int][idx] is Trans {
                    resolve_in(layers, held.drop_last(), idx)
                } else {
                    layers[l as int][idx]
                }
            },
            _ => resolve_in(layers, held.drop_last(), idx),
        }
    }
}

/// The state after a press of `c`: ignored if `c` is already held; otherwise
/// the resolved action is recorded, and a resolved custom action becomes
/// pending if none is pending yet.
pub open spec fn apply_press(m: LayoutModel, c: KeyCoord) -> LayoutModel {
    if holds_coord(m.held, c) {
        m
    } else {
        let a = resolve_in(m.layers, m.held, index_of_coord(c));
        LayoutModel {
            layers: m.layers,
            held: m.held.push(HeldKey { coord: c, action: a }),
            pending: match a {
                Action::Custom(ca) => if m.pending is None {
                    Some(PendingCustom { coord: c, action: ca })
                } else {
                    m.pending
                },
                _ => m.pending,
            },
        }
    }
}

/// The state after a release of `c`: the held entry at `c` is dropped, and a
/// pending custom action that this very key made due is cancelled.
pub open spec fn apply_release(m: LayoutModel, c: KeyCoord) -> LayoutModel {
    LayoutModel {
        layers: m.layers,
        held: held_remove(m.held, c),
        pending: if m.pending matches Some(p) && p.coord == c {
            None
        } else {
            m.pending
        },
    }
}

/// The state after one key event.
pub open spec fn apply_event(m: LayoutModel, e: KeyEvent) -> LayoutModel {
    match e.kind {
        KeyEventKind::Press => apply_press(m, e.coord),
        KeyEventKind::Release => apply_release(m, e.coord),
    }
}

/// The state after a tick: a due custom action has been handed out.
pub open spec fn apply_tick(m: LayoutModel) -> LayoutModel {
    LayoutModel { layers: m.layers, held: m.held, pending: None }
}

/// What a tick hands out: the pending custom action, if any.
pub open spec fn tick_output(m: LayoutModel) -> Option<CustomActions> {
    match m.pending {
        Some(p) => Some(p.action),
        None => None,
    }
}

/// Every layer-shift action recorded in `held` targets an existing layer.
pub open spec fn held_layer_bounds(held: Seq<HeldKey>, nlayers: int) -> bool {
    forall|i: int|
        0 <= i < held.len() ==> ((#[trigger] held[i]).action matches Action::LayerShift(l) ==> (
        l as int) < nlayers)
}

impl LayoutModel {
    /// Layers are well-formed; held coordinates lie on the matrix and are
    /// pairwise distinct; held layer shifts target existing layers; a pending
    /// custom action is backed by a held key whose resolved action is exactly
    /// that custom action.
    pub open spec fn wf(self) -> bool {
        &&& layers_wf(self.layers)
        &&& forall|i: int| 0 <= i < self.held.len() ==> (#[trigger] self.held[i]).coord.wf()
        &&& forall|i: int, j: int|
            0 <= i < j < self.held.len() ==> (#[trigger] self.held[i]).coord != (
            #[trigger] self.held[j]).coord
        &&& held_layer_bounds(self.held, self.layers.len() as int)
        &&& self.pending matches Some(p) ==> exists|i: int|
            0 <= i < self.held.len() && (#[trigger] self.held[i]) == (HeldKey {
                coord: p.coord,
                action: Action::Custom(p.action),
            })
    }
}

/// With well-formed layers and bounded held layer shifts, a resolved
/// layer-shift action targets an existing layer too.
pub proof fn lemma_resolve_action_wf(layers: Seq<Seq<Action>>, held: Seq<HeldKey>, idx: int)
    requires
        layers_wf(layers),
        0 <= idx < NUM_KEYS,
        held_layer_bounds(held, layers.len() as int),
    ensures
        resolve_in(layers, held, idx) matches Action::LayerShift(l) ==> (l as int) < layers.len(),
    decreases held.len(),
{
    if held.len() == 0 {
        assert(layers[0][idx] matches Action::LayerShift(t) ==> (t as int) < layers.len());
    } else {
        assert(held_layer_bounds(held.drop_last(), layers.len() as int)) by {
            assert forall|i: int|
                0 <= i < held.drop_last().len() implies ((#[trigger] held.drop_last()[i]).action
                matches Action::LayerShift(l) ==> (l as int) < layers.len()) by {
                assert(held.drop_last()[i] == held[i]);
            }
        }
        lemma_resolve_action_wf(layers, held.drop_last(), idx);
        assert(held.last() == held[held.len() - 1]);
        match held.last().action {
            Action::LayerShift(l) => {
                assert(layers[l as int][idx] matches Action::LayerShift(t) ==> (t as int)
                    < layers.len());
            },
            _ => {},
        }
    }
}

/// The entries `kept_upto` keeps: none is at `c`, each comes from the prefix,
/// entries at other coordinates all survive, and distinctness of coordinates
/// is preserved.
pub proof fn lemma_kept_upto_props(held: Seq<HeldKey>, c: KeyCoord, n: int)
    requires
        0 <= n <= held.len(),
        forall|i: int, j: int|
            0 <= i < j < held.len() ==> (#[trigger] held[i]).coord != (#[trigger] held[j]).coord,
    ensures
        kept_upto(held, c, n).len() <= n,
        forall|i: int|
            0 <= i < kept_upto(held, c, n).len() ==> (#[trigger] kept_upto(held, c, n)[i]).coord
                != c,
        forall|i: int|
            0 <= i < kept_upto(held, c, n).len() ==> exists|j: int|
                0 <= j < n && held[j] == (#[trigger] kept_upto(held, c, n)[i]),
        forall|j: int|
            0 <= j < n && (#[trigger] held[j]).coord != c ==> kept_upto(held, c, n).contains(
                held[j],
            ),
        forall|i: int, j: int|
            0 <= i < j < kept_upto(held, c, n).len() ==> (#[trigger] kept_upto(held, c, n)[i]).coord
                != (#[trigger] kept_upto(held, c, n)[j]).coord,
    decreases n,
{
    if n > 0 {
        lemma_kept_upto_props(held, c, n - 1);
        let prev = kept_upto(held, c, n - 1);
        let cur = kept_upto(held, c, n);
        if held[n - 1].coord != c {
            assert(cur =~= prev.push(held[n - 1]));
            assert forall|i: int, j: int| 0 <= i < j < cur.len() implies (
            #[trigger] cur[i]).coord != (#[trigger] cur[j]).coord by {
                if j == cur.len() - 1 {
                    let jj = choose|jj: int| 0 <= jj < n - 1 && held[jj] == prev[i];
                    assert(held[jj].coord != held[n - 1].coord);
                }
            }
            assert forall|j: int| 0 <= j < n && (#[trigger] held[j]).coord != c implies cur.contains(
                held[j],
            ) by {
                if j < n - 1 {
                    let jj = choose|jj: int| 0 <= jj < prev.len() && prev[jj] == held[j];
                    assert(cur[jj] == held[j]);
                } else {
                    assert(cur[cur.len() - 1] == held[j]);
                }
            }
        } else {
            assert(cur =~= prev);
            assert forall|j: int| 0 <= j < n && (#[trigger] held[j]).coord != c implies cur.contains(
                held[j],
            ) by {
                let jj = choose|jj: int| 0 <= jj < prev.len() && prev[jj] == held[j];
                assert(cur[jj] == held[j]);
            }
        }
    }
}

/// If no entry of the prefix sits at `c`, `kept_upto` keeps the prefix whole.
pub proof fn lemma_kept_upto_all_kept(held: Seq<HeldKey>, c: KeyCoord, n: int)
    requires
        0 <= n <= held.len(),
        forall|j: int| 0 <= j < n ==> (#[trigger] held[j]).coord != c,
    ensures
        kept_upto(held, c, n) == held.take(n),
    decreases n,
{
    if n > 0 {
        lemma_kept_upto_all_kept(held, c, n - 1);
        assert(kept_upto(held, c, n) =~= held.take(n));
    } else {
        assert(kept_upto(held, c, n) =~= held.take(n));
    }
}

/// `kept_upto` reads only the first `n` entries.
pub proof fn lemma_kept_upto_agree(s1: Seq<HeldKey>, s2: Seq<HeldKey>, c: KeyCoord, n: int)
    requires
        forall|j: int| 0 <= j < n ==> s1[j] == s2[j],
    ensures
        kept_upto(s1, c, n) == kept_upto(s2, c, n),
    decreases n,
{
    if n > 0 {
        lemma_kept_upto_agree(s1, s2, c, n - 1);
    }
}

/// Removing at the unique index of `c` removes exactly that entry.
pub proof fn lemma_held_remove_at_index(held: Seq<HeldKey>, c: KeyCoord, at: int)
    requires
        0 <= at < held.len(),
        held[at].coord == c,
        forall|j: int| 0 <= j < held.len() && j != at ==> (#[trigger] held[j]).coord != c,
    ensures
        held_remove(held, c) == held.remove(at),
    decreases held.len(),
{
    lemma_kept_upto_skip(held, c, at, held.len() as int);
    lemma_kept_upto_all_kept(held, c, at);
    assert(held_remove(held, c) =~= held.remove(at));
}

/// Past the removal index, `kept_upto` appends the untouched tail.
proof fn lemma_kept_upto_skip(held: Seq<HeldKey>, c: KeyCoord, at: int, n: int)
    requires
        0 <= at < n <= held.len(),
        held[at].coord == c,
        forall|j: int| 0 <= j < held.len() && j != at ==> (#[trigger] held[j]).coord != c,
    ensures
        kept_upto(held, c, n) == kept_upto(held, c, at) + held.subrange(at + 1, n),
    decreases n,
{
    if n == at + 1 {
        assert(kept_upto(held, c, n) =~= kept_upto(held, c, at) + held.subrange(at + 1, n));
    } else {
        lemma_kept_upto_skip(held, c, at, n - 1);
        assert(kept_upto(held, c, n) =~= kept_upto(held, c, at) + held.subrange(at + 1, n));
    }
}

/// The layout engine: a keymap plus the set of held coordinates (in press
/// order) and at most one pending custom action.
pub struct LayoutState {
    keymap: Keymap,
    held: Vec<HeldKey>,
    pending: Option<PendingCustom>,
}

impl View for LayoutState {
    type V = LayoutModel;

    closed spec fn view(&self) -> LayoutModel {
        LayoutModel { layers: self.keymap@, held: self.held@, pending: self.pending }
    }
}

impl LayoutState {
    /// The model invariant holds.
    pub open spec fn wf(&self) -> bool {
        self@.wf()
    }

    /// A fresh engine over `keymap`: nothing held, nothing pending.
    pub fn new(keymap: Keymap) -> (r: LayoutState)
        requires
            keymap.wf(),
        ensures
            r.wf(),
            r@.layers == keymap@,
            r@.held == Seq::<HeldKey>::empty(),
            r@.pending is None,
    {
        LayoutState { keymap, held: Vec::new(), pending: None }
    }

    /// Whether `c` is currently held.
    pub fn holds(&self, c: KeyCoord) -> (r: bool)
        ensures
            r == holds_coord(self@.held, c),
    {
        let mut i: usize = 0;
        let n = self.held.len();
        while i < n
            invariant
                i <= n,
                n == self.held@.len(),
                forall|j: int| 0 <= j < i ==> (#[trigger] self.held@[j]).coord != c,
            decreases n - i,
        {
            if self.held[i].coord.row == c.row && self.held[i].coord.col == c.col {
                return true;
            }
            i = i + 1;
        }
        false
    }

    /// Resolves the action for cell `idx` through the current layer stack.
    fn resolve_current(&self, idx: usize) -> (r: Action)
        requires
            self.wf(),
            idx < NUM_KEYS,
        ensures
            r == resolve_in(self@.layers, self@.held, idx as int),
    {
        proof {
            assert(self@.held.take(self.held@.len() as int) =~= self@.held);
        }
        let mut j = self.held.len();
        while j > 0
            invariant
                j <= self.held@.len(),
                self.wf(),
                idx < NUM_KEYS,
                resolve_in(self@.layers, self@.held, idx as int) == resolve_in(
                    self@.layers,
                    self@.held.take(j as int),
                    idx as int,
                ),
            decreases j,
        {
            let ghost pre = self@.held.take(j as int);
            proof {
                assert(pre.last() == self@.held[j - 1]);
                assert(pre.drop_last() =~= self@.held.take(j - 1));
            }
            match self.held[j - 1].action {
                Action::LayerShift(l) => {
                    let a = self.keymap.action_at(l, idx);
                    match a {
                        Action::Trans => {},
                        _ => {
                            return a;
                        },
                    }
                },
                _ => {},
            }
            j = j - 1;
        }
        proof {
            assert(self@.held.take(0) =~= Seq::<HeldKey>::empty());
        }
        let base = self.keymap.action_at(0, idx);
        match base {
            Action::Trans => Action::Key(KC_NO),
            _ => base,
        }
    }

    /// Feeds one key event through the state machine.
    pub fn key_event(&mut self, e: KeyEvent)
        requires
            old(self).wf(),
            e.wf(),
        ensures
            final(self).wf(),
            final(self)@ == apply_event(old(self)@, e),
    {
        match e.kind {
            KeyEventKind::Press => self.press(e.coord),
            KeyEventKind::Release => self.release(e.coord),
        }
    }

    /// A press of `c`.
    fn press(&mut self, c: KeyCoord)
        requires
            old(self).wf(),
            c.wf(),
        ensures
            final(self).wf(),
            final(self)@ == apply_press(old(self)@, c),
    {
        if self.holds(c) {
            return;
        }
        let idx = c.row * crate::NUM_COLS + c.col;
        let a = self.resolve_current(idx);
        proof {
            assert(index_of_coord(c) == idx as int);
        }
        let entry = HeldKey { coord: c, action: a };
        self.held.push(entry);
        match a {
            Action::Custom(ca) => {
                if self.pending.is_none() {
                    self.pending = Some(PendingCustom { coord: c, action: ca });
                }
            },
            _ => {},
        }
        proof {
            let m0 = old(self)@;
            let m1 = apply_press(m0, c);
            lemma_resolve_action_wf(m0.layers, m0.held, idx as int);
            assert(self@.held =~= m1.held);
            assert(self@ =~= m1);
            assert forall|i: int|
                0 <= i < m1.held.len() implies ((#[trigger] m1.held[i]).action matches
                Action::LayerShift(l) ==> (l as int) < m1.layers.len()) by {
                if i < m0.held.len() {
                    assert(m1.held[i] == m0.held[i]);
                }
            }
            match m1.pending {
                Some(p) => {
                    if m0.pending is Some {
                        let i = choose|i: int|
                            0 <= i < m0.held.len() && (#[trigger] m0.held[i]) == (HeldKey {
                                coord: p.coord,
                                action: Action::Custom(p.action),
                            });
                        assert(m1.held[i] == m0.held[i]);
                    } else {
                        assert(m1.held[m1.held.len() - 1] == (HeldKey {
                            coord: p.coord,
                            action: Action::Custom(p.action),
                        }));
                    }
                },
                None => {},
            }
        }
    }

    /// The index of the held entry at `c`, if `c` is held.
    fn find_held_index(&self, c: KeyCoord) -> (r: Option<usize>)
        ensures
            r matches Some(i) ==> i < self@.held.len() && self@.held[i as int].coord == c,
            r is None ==> forall|j: int| 0 <= j < self@.held.len() ==> (
            #[trigger] self@.held[j]).coord != c,
    {
        let mut i: usize = 0;
        let n = self.held.len();
        while i < n
            invariant
                i <= n,
                n == self.held@.len(),
                forall|j: int| 0 <= j < i ==> (#[trigger] self.held@[j]).coord != c,
            decreases n - i,
        {
            if self.held[i].coord.row == c.row && self.held[i].coord.col == c.col {
                return Some(i);
            }
            i = i + 1;
        }
        None
    }

    /// A release of `c`.
    fn release(&mut self, c: KeyCoord)
        requires
            old(self).wf(),
        ensures
            final(self).wf(),
            final(self)@ == apply_release(old(self)@, c),
    {
        let ghost m0 = old(self)@;
        match self.pending {
            Some(p) => {
                if p.coord.row == c.row && p.coord.col == c.col {
                    self.pending = None;
                }
            },
            None => {},
        }
        match self.find_held_index(c) {
            Some(i) => {
                proof {
                    assert forall|j: int|
                        0 <= j < m0.held.len() && j != i implies (#[trigger] m0.held[j]).coord
                        != c by {
                        if j > i {
                            assert(m0.held[i as int].coord != m0.held[j].coord);
                        } else {
                            assert(m0.held[j].coord != m0.held[i as int].coord);
                        }
                    }
                    lemma_held_remove_at_index(m0.held, c, i as int);
                }
                self.held.remove(i);
            },
            None => {
                proof {
                    lemma_kept_upto_all_kept(m0.held, c, m0.held.len() as int);
                    assert(m0.held.take(m0.held.len() as int) =~= m0.held);
                }
            },
        }
        proof {
            finish_release_wf(m0, c, self@);
        }
    }

    /// Advances time-based behaviour: hands out a due custom action.
    pub fn tick(&mut self) -> (r: Option<CustomActions>)
        requires
            old(self).wf(),
        ensures
            final(self).wf(),
            final(self)@ == apply_tick(old(self)@),
            r == tick_output(old(self)@),
    {
        let r = match self.pending {
            Some(p) => Some(p.action),
            None => None,
        };
        self.pending = None;
        r
    }

    /// The held entries, earliest press first.
    pub fn held_entries(&self) -> (r: &Vec<HeldKey>)
        ensures
            r@ == self@.held,
    {
        &self.held
    }
}

/// The released state is well-formed and matches `apply_release`.
proof fn finish_release_wf(m0: LayoutModel, c: KeyCoord, m2: LayoutModel)
    requires
        m0.wf(),
        m2.layers == m0.layers,
        m2.held == held_remove(m0.held, c),
        m2.pending == apply_release(m0, c).pending,
    ensures
        m2.wf(),
        m2 == apply_release(m0, c),
{
    lemma_kept_upto_props(m0.held, c, m0.held.len() as int);
    assert(m2 =~= apply_release(m0, c));
    assert forall|i: int| 0 <= i < m2.held.len() implies (#[trigger] m2.held[i]).coord.wf() by {
        let j = choose|j: int| 0 <= j < m0.held.len() && m0.held[j] == m2.held[i];
        assert(m0.held[j].coord.wf());
    }
    assert forall|i: int|
        0 <= i < m2.held.len() implies ((#[trigger] m2.held[i]).action matches Action::LayerShift(
        l,
    ) ==> (l as int) < m2.layers.len()) by {
        let j = choose|j: int| 0 <= j < m0.held.len() && m0.held[j] == m2.held[i];
        assert(m0.held[j].action matches Action::LayerShift(l) ==> (l as int) < m0.layers.len());
    }
    match m2.pending {
        Some(p) => {
            let i = choose|i: int|
                0 <= i < m0.held.len() && (#[trigger] m0.held[i]) == (HeldKey {
                    coord: p.coord,
                    action: Action::Custom(p.action),
                });
            assert(m2.held.contains(m0.held[i]));
            let k = choose|k: int| 0 <= k < m2.held.len() && m2.held[k] == m0.held[i];
            assert(m2.held[k] == (HeldKey { coord: p.coord, action: Action::Custom(p.action) }));
        },
        None => {},
    }
}

/// Round trip: a press of a coordinate that is not held, immediately followed
/// by its release with no events between, leaves the layout state exactly as
/// it was.
pub proof fn lemma_press_release_round_trip(m: LayoutModel, c: KeyCoord)
    requires
        m.wf(),
        c.wf(),
        !holds_coord(m.held, c),
    ensures
        apply_release(apply_press(m, c), c) == m,
{
    let a = resolve_in(m.layers, m.held, index_of_coord(c));
    let m1 = apply_press(m, c);
    let m2 = apply_release(m1, c);
    assert forall|j: int| 0 <= j < m.held.len() implies (#[trigger] m.held[j]).coord != c by {
        if m.held[j].coord == c {
            assert(holds_coord(m.held, c));
        }
    }
    assert(kept_upto(m1.held, c, m1.held.len() as int) == kept_upto(
        m1.held,
        c,
        m.held.len() as int,
    ) + Seq::<HeldKey>::empty());
    lemma_kept_upto_agree(m1.held, m.held, c, m.held.len() as int);
    lemma_kept_upto_all_kept(m.held, c, m.held.len() as int);
    assert(m.held.take(m.held.len() as int) =~= m.held);
    assert(m2.held =~= m.held);
    match m.pending {
        Some(p) => {
            let i = choose|i: int|
                0 <= i < m.held.len() && (#[trigger] m.held[i]) == (HeldKey {
                    coord: p.coord,
                    action: Action::Custom(p.action),
                });
            assert(m.held[i].coord != c);
            assert(m2.pending == m.pending);
        },
        None => {},
    }
    assert(m2 =~= m);
}

} // verus!
