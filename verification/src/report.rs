//! HID boot-keyboard report assembly. The report is recomputed whole from the
//! held keys on every tick — never patched — so no stale key can linger. Held
//! keys are visited in press order; when more normal keys are active than the
//! hardware format carries, the earliest-pressed keys are retained and the
//! newest are dropped.

use vstd::prelude::*;

verus! {

use crate::keymap::Action;
use crate::layout::HeldKey;
use crate::REPORT_KEY_CAPACITY;

/// `k` is a modifier usage code (left control through right GUI).
pub open spec fn is_modifier_code(k: u8) -> bool {
    224 <= k <= 231
}

/// `k` is a normal key usage code the report can carry.
pub open spec fn is_normal_code(k: u8) -> bool {
    4 <= k < 224
}

/// The modifier bitmask bit for modifier code `k`.
pub open spec fn modifier_bit(k: u8) -> u8 {
    if k == 224 {
        1
    } else if k == 225 {
        2
    } else if k == 226 {
        4
    } else if k == 227 {
        8
    } else if k == 228 {
        16
    } else if k == 229 {
        32
    } else if k == 230 {
        64
    } else {
        128
    }
}

/// The mathematical content of a report: the modifier bitmask and the ordered
/// normal key codes.
#[verifier::ext_equal]
pub ghost struct ReportModel {
    pub modifiers: u8,
    pub keys: Seq<u8>,
}

impl ReportModel {
    /// At most the hardware capacity of normal codes, none repeated.
    pub open spec fn wf(self) -> bool {
        &&& self.keys.len() <= REPORT_KEY_CAPACITY
        &&& forall|i: int| 0 <= i < self.keys.len() ==> is_normal_code(#[trigger] self.keys[i])
        &&& forall|i: int, j: int|
            0 <= i < j < self.keys.len() ==> self.keys[i] != self.keys[j]
    }

    /// The report with nothing active.
    pub open spec fn empty() -> ReportModel {
        ReportModel { modifiers: 0, keys: Seq::empty() }
    }
}

/// Folds one held action into a report: a modifier sets its bit; a fresh
/// normal code is appended while capacity remains and silently dropped
/// otherwise; everything else contributes nothing.
pub open spec fn report_add(r: ReportModel, a: Action) -> ReportModel {
    match a {
        Action::Key(k) => if is_modifier_code(k) {
            ReportModel { modifiers: r.modifiers | modifier_bit(k), keys: r.keys }
        } else if is_normal_code(k) && !r.keys.contains(k) && r.keys.len() < REPORT_KEY_CAPACITY {
            ReportModel { modifiers: r.modifiers, keys: r.keys.push(k) }
        } else {
            r
        },
        _ => r,
    }
}

/// The report derived from the first `n` held entries, in press order.
pub open spec fn report_upto(held: Seq<HeldKey>, n: int) -> ReportModel
    decreases n,
{
    if n <= 0 {
        ReportModel::empty()
    } else {
        report_add(report_upto(held, n - 1), held[n - 1].action)
    }
}

/// The report derived from all held entries, earliest press first.
pub open spec fn report_of(held: Seq<HeldKey>) -> ReportModel {
    report_upto(held, held.len() as int)
}

/// Every prefix of the held entries derives a well-formed report.
pub proof fn lemma_report_upto_wf(held: Seq<HeldKey>, n: int)
    requires
        0 <= n,
    ensures
        report_upto(held, n).wf(),
    decreases n,
{
    if n > 0 {
        lemma_report_upto_wf(held, n - 1);
        let prev = report_upto(held, n - 1);
        let cur = report_upto(held, n);
        match held[n - 1].action {
            Action::Key(k) => {
                if is_normal_code(k) && !prev.keys.contains(k) && prev.keys.len()
                    < REPORT_KEY_CAPACITY {
                    assert forall|i: int, j: int|
                        0 <= i < j < cur.keys.len() implies cur.keys[i] != cur.keys[j] by {
                        if j == cur.keys.len() - 1 {
                            assert(!prev.keys.contains(k));
                            assert(prev.keys[i] != k);
                        }
                    }
                }
            },
            _ => {},
        }
    }
}

/// Rollover safety: whatever is held, the derived report is well-formed — it
/// never carries more than the hardware-capacity number of normal key codes,
/// and never repeats one.
pub proof fn lemma_report_capacity(held: Seq<HeldKey>)
    ensures
        report_of(held).wf(),
        report_of(held).keys.len() <= REPORT_KEY_CAPACITY,
{
    lemma_report_upto_wf(held, held.len() as int);
}

/// A fixed-format HID boot-keyboard report.
pub struct HidReport {
    modifiers: u8,
    keys: Vec<u8>,
}

impl View for HidReport {
    type V = ReportModel;

    closed spec fn view(&self) -> ReportModel {
        ReportModel { modifiers: self.modifiers, keys: self.keys@ }
    }
}

impl HidReport {
    /// The model invariant holds.
    pub open spec fn wf(&self) -> bool {
        self@.wf()
    }

    /// A report with nothing active.
    pub fn new() -> (r: HidReport)
        ensures
            r@ == ReportModel::empty(),
            r.wf(),
    {
        let r = HidReport { modifiers: 0, keys: Vec::new() };
        proof {
            assert(r@ =~= ReportModel::empty());
        }
        r
    }

    /// The modifier bitmask byte.
    pub fn modifiers(&self) -> (r: u8)
        ensures
            r == self@.modifiers,
    {
        self.modifiers
    }

    /// The active normal key codes, earliest press first.
    pub fn key_codes(&self) -> (r: &Vec<u8>)
        ensures
            r@ == self@.keys,
    {
        &self.keys
    }

    /// Derives the report from held entries, earliest press first.
    pub fn build(held: &Vec<HeldKey>) -> (r: HidReport)
        ensures
            r@ == report_of(held@),
            r.wf(),
    {
        let mut modifiers: u8 = 0;
        let mut keys: Vec<u8> = Vec::new();
        let mut i: usize = 0;
        let n = held.len();
        proof {
            assert(ReportModel { modifiers: 0, keys: Seq::empty() } =~= report_upto(held@, 0));
        }
        while i < n
            invariant
                i <= n,
                n == held@.len(),
                (ReportModel { modifiers: modifiers, keys: keys@ }) == report_upto(held@, i as int),
            decreases n - i,
        {
            let ghost prev = report_upto(held@, i as int);
            match held[i].action {
                Action::Key(k) => {
                    if 224 <= k && k <= 231 {
                        let bit: u8 = if k == 224 {
                            1
                        } else if k == 225 {
                            2
                        } else if k == 226 {
                            4
                        } else if k == 227 {
                            8
                        } else if k == 228 {
                            16
                        } else if k == 229 {
                            32
                        } else if k == 230 {
                            64
                        } else {
                            128
                        };
                        modifiers = modifiers | bit;
                    } else if 4 <= k && k < 224 {
                        if !contains_code(&keys, k) && keys.len() < REPORT_KEY_CAPACITY {
                            keys.push(k);
                        }
                    }
                },
                _ => {},
            }
            i = i + 1;
            proof {
                assert(ReportModel { modifiers: modifiers, keys: keys@ } =~= report_add(
                    prev,
                    held@[i - 1].action,
                ));
            }
        }
        let r = HidReport { modifiers, keys };
        proof {
            lemma_report_capacity(held@);
            assert(r@ =~= report_of(held@));
        }
        r
    }

    /// Whether two reports have identical content: used to suppress redundant
    /// transmissions of an unchanged report.
    pub fn same_as(&self, other: &HidReport) -> (r: bool)
        ensures
            r == (self@ == other@),
    {
        if self.modifiers != other.modifiers {
            return false;
        }
        if self.keys.len() != other.keys.len() {
            return false;
        }
        let mut i: usize = 0;
        let n = self.keys.len();
        while i < n
            invariant
                i <= n,
                n == self.keys@.len(),
                n == other.keys@.len(),
                self.modifiers == other.modifiers,
                forall|j: int| 0 <= j < i ==> self.keys@[j] == other.keys@[j],
            decreases n - i,
        {
            if self.keys[i] != other.keys[i] {
                return false;
            }
            i = i + 1;
        }
        proof {
            assert(self@.keys =~= other@.keys);
            assert(self@ =~= other@);
        }
        true
    }

    /// The 8-byte wire format: modifier bitmask, a reserved zero byte, then
    /// the key codes padded with zeros.
    pub fn to_bytes(&self) -> (r: Vec<u8>)
        requires
            self.wf(),
        ensures
            r@.len() == 8,
            r@[0] == self@.modifiers,
            r@[1] == 0,
            forall|i: int|
                2 <= i < 8 ==> r@[i] == if i - 2 < self@.keys.len() {
                    self@.keys[i - 2]
                } else {
                    0
                },
    {
        let mut out: Vec<u8> = Vec::new();
        out.push(self.modifiers);
        out.push(0);
        let mut i: usize = 0;
        while i < REPORT_KEY_CAPACITY
            invariant
                i <= REPORT_KEY_CAPACITY,
                out@.len() == 2 + i,
                self.wf(),
                out@[0] == self@.modifiers,
                out@[1] == 0,
                forall|j: int|
                    2 <= j < out@.len() ==> out@[j] == if j - 2 < self@.keys.len() {
                        self@.keys[j - 2]
                    } else {
                        0
                    },
            decreases REPORT_KEY_CAPACITY - i,
        {
            if i < self.keys.len() {
                out.push(self.keys[i]);
            } else {
                out.push(0);
            }
            i = i + 1;
        }
        out
    }
}

/// Whether `keys` already carries the code `k`.
fn contains_code(keys: &Vec<u8>, k: u8) -> (r: bool)
    ensures
        r == keys@.contains(k),
{
    let mut i: usize = 0;
    let n = keys.len();
    while i < n
        invariant
            i <= n,
            n == keys@.len(),
            forall|j: int| 0 <= j < i ==> keys@[j] != k,
        decreases n - i,
    {
        if keys[i] == k {
            proof {
                assert(keys@[i as int] == k);
            }
            return true;
        }
        i = i + 1;
    }
    proof {
        assert(!keys@.contains(k)) by {
            if keys@.contains(k) {
                let j = choose|j: int| 0 <= j < keys@.len() && keys@[j] == k;
            }
        }
    }
    false
}

} // verus!
