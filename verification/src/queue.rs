//! The bounded work-handoff queue between the scan task and the input task.
//! Overflow is handled by deterministic drop policies rather than failure: a
//! tick offered to a full queue is coalesced away, and a key event offered to
//! a full queue evicts the oldest queued tick; only a full queue of key
//! events rejects a further key event, and a counter records every drop.

use vstd::prelude::*;

verus! {

use crate::event::KeyEvent;
use crate::QUEUE_CAPACITY;

/// One unit of work for the input task: a key event, or the periodic tick
/// that closes a scan period.
#[derive(Clone, Copy, Debug, PartialEq, Eq, Structural)]
pub enum Msg {
    Key(KeyEvent),
    Tick,
}

/// What became of an enqueue attempt.
#[derive(Clone, Copy, Debug, PartialEq, Eq, Structural)]
pub enum EnqueueOutcome {
    /// The message was queued.
    Queued,
    /// A tick offered to a full queue was dropped (coalesced with the work
    /// already queued).
    TickCoalesced,
    /// A key event offered to a full queue was queued after evicting the
    /// oldest queued tick.
    StaleTickEvicted,
    /// A key event offered to a full queue of key events was dropped.
    Rejected,
}

/// The mathematical state of the queue: pending messages oldest first, and
/// how many messages the drop policies have discarded.
#[verifier::ext_equal]
pub ghost struct QueueModel {
    pub items: Seq<Msg>,
    pub dropped: nat,
}

/// Some queued message is a tick.
pub open spec fn has_tick(items: Seq<Msg>) -> bool {
    exists|i: int| 0 <= i < items.len() && (#[trigger] items[i]) is Tick
}

/// The index of the oldest queued tick.
pub open spec fn first_tick_index(items: Seq<Msg>) -> int {
    choose|i: int|
        0 <= i < items.len() && (#[trigger] items[i]) is Tick && forall|j: int|
            0 <= j < i ==> !((#[trigger] items[j]) is Tick)
}

/// The queue contents after offering `m`, under the drop policies.
pub open spec fn enqueue_items(items: Seq<Msg>, m: Msg) -> Seq<Msg> {
    if items.len() < QUEUE_CAPACITY {
        items.push(m)
    } else if m is Tick {
        items
    } else if has_tick(items) {
        items.remove(first_tick_index(items)).push(m)
    } else {
        items
    }
}

/// The outcome reported for offering `m`.
pub open spec fn enqueue_outcome(items: Seq<Msg>, m: Msg) -> EnqueueOutcome {
    if items.len() < QUEUE_CAPACITY {
        EnqueueOutcome::Queued
    } else if m is Tick {
        EnqueueOutcome::TickCoalesced
    } else if has_tick(items) {
        EnqueueOutcome::StaleTickEvicted
    } else {
        EnqueueOutcome::Rejected
    }
}

/// The drop counter after offering `m`: it grows exactly when something was
/// discarded, saturating at its maximum.
pub open spec fn enqueue_dropped(q: QueueModel, m: Msg) -> nat {
    if enqueue_outcome(q.items, m) is Queued {
        q.dropped
    } else if q.dropped < u64::MAX {
        q.dropped + 1
    } else {
        q.dropped
    }
}

/// The whole queue state after offering `m`.
pub open spec fn enqueue_step(q: QueueModel, m: Msg) -> QueueModel {
    QueueModel { items: enqueue_items(q.items, m), dropped: enqueue_dropped(q, m) }
}

/// The queue state after offering a whole sequence of messages in order.
pub open spec fn enqueue_all(q: QueueModel, msgs: Seq<Msg>) -> QueueModel
    decreases msgs.len(),
{
    if msgs.len() == 0 {
        q
    } else {
        enqueue_all(enqueue_step(q, msgs.first()), msgs.drop_first())
    }
}

/// A queue that holds a tick holds an oldest one: `first_tick_index` is in
/// range, lands on a tick, and nothing before it is a tick.
pub proof fn lemma_first_tick_properties(items: Seq<Msg>)
    requires
        has_tick(items),
    ensures
        0 <= first_tick_index(items) < items.len(),
        items[first_tick_index(items)] is Tick,
        forall|j: int| 0 <= j < first_tick_index(items) ==> !((#[trigger] items[j]) is Tick),
    decreases items.len(),
{
    if items[0] is Tick {
        assert(exists|i: int|
            0 <= i < items.len() && (#[trigger] items[i]) is Tick && forall|j: int|
                0 <= j < i ==> !((#[trigger] items[j]) is Tick));
    } else {
        let rest = items.drop_first();
        let t = choose|i: int| 0 <= i < items.len() && (#[trigger] items[i]) is Tick;
        assert(rest[t - 1] is Tick);
        assert(has_tick(rest));
        lemma_first_tick_properties(rest);
        let w = first_tick_index(rest);
        assert(items[w + 1] == rest[w]);
        assert forall|j: int| 0 <= j < w + 1 implies !((#[trigger] items[j]) is Tick) by {
            if j > 0 {
                assert(rest[j - 1] == items[j]);
            }
        }
        assert(exists|i: int|
            0 <= i < items.len() && (#[trigger] items[i]) is Tick && forall|j: int|
                0 <= j < i ==> !((#[trigger] items[j]) is Tick));
    }
}

/// Every queued key event lies on the matrix.
pub open spec fn msgs_wf(items: Seq<Msg>) -> bool {
    forall|i: int|
        0 <= i < items.len() ==> ((#[trigger] items[i]) matches Msg::Key(e) ==> e.wf())
}

/// The drop policies only ever keep messages that were offered: offering a
/// well-formed message to a queue of well-formed messages leaves only
/// well-formed messages.
pub proof fn lemma_enqueue_step_msgs_wf(q: QueueModel, m: Msg)
    requires
        msgs_wf(q.items),
        m matches Msg::Key(e) ==> e.wf(),
    ensures
        msgs_wf(enqueue_step(q, m).items),
{
    let after = enqueue_step(q, m).items;
    assert forall|i: int|
        0 <= i < after.len() implies ((#[trigger] after[i]) matches Msg::Key(e) ==> e.wf()) by {
        if q.items.len() < QUEUE_CAPACITY {
            if i < q.items.len() {
                assert(after[i] == q.items[i]);
            }
        } else if !(m is Tick) && has_tick(q.items) {
            lemma_first_tick_properties(q.items);
            let f = first_tick_index(q.items);
            if i < after.len() - 1 {
                if i < f {
                    assert(after[i] == q.items[i]);
                } else {
                    assert(after[i] == q.items[i + 1]);
                }
            }
        } else {
            assert(after[i] == q.items[i]);
        }
    }
}

/// Offering a sequence of well-formed messages preserves queue
/// well-formedness.
pub proof fn lemma_enqueue_all_msgs_wf(q: QueueModel, msgs: Seq<Msg>)
    requires
        msgs_wf(q.items),
        msgs_wf(msgs),
    ensures
        msgs_wf(enqueue_all(q, msgs).items),
    decreases msgs.len(),
{
    if msgs.len() > 0 {
        assert(msgs[0] matches Msg::Key(e) ==> e.wf());
        lemma_enqueue_step_msgs_wf(q, msgs.first());
        assert(msgs_wf(msgs.drop_first())) by {
            assert forall|i: int|
                0 <= i < msgs.drop_first().len() implies ((#[trigger] msgs.drop_first()[i]) matches
                Msg::Key(e) ==> e.wf()) by {
                assert(msgs.drop_first()[i] == msgs[i + 1]);
            }
        }
        lemma_enqueue_all_msgs_wf(enqueue_step(q, msgs.first()), msgs.drop_first());
    }
}

/// Offering one more message at the end steps the state once.
pub proof fn lemma_enqueue_all_push(q: QueueModel, msgs: Seq<Msg>, m: Msg)
    ensures
        enqueue_all(q, msgs.push(m)) == enqueue_step(enqueue_all(q, msgs), m),
    decreases msgs.len(),
{
    if msgs.len() == 0 {
        reveal_with_fuel(enqueue_all, 2);
        assert(msgs.push(m).first() == m);
        assert(msgs.push(m).drop_first() =~= Seq::<Msg>::empty());
    } else {
        assert(msgs.push(m).first() == msgs.first());
        assert(msgs.push(m).drop_first() =~= msgs.drop_first().push(m));
        lemma_enqueue_all_push(enqueue_step(q, msgs.first()), msgs.drop_first(), m);
    }
}

/// While the queue has room, offering messages neither drops nor reorders
/// anything: the queue is exactly the old contents followed by the offered
/// messages, in order.
pub proof fn lemma_enqueue_all_in_order(q: QueueModel, msgs: Seq<Msg>)
    requires
        q.items.len() + msgs.len() <= QUEUE_CAPACITY,
    ensures
        enqueue_all(q, msgs).items == q.items + msgs,
        enqueue_all(q, msgs).dropped == q.dropped,
    decreases msgs.len(),
{
    if msgs.len() == 0 {
        assert(q.items + msgs =~= q.items);
    } else {
        let q1 = enqueue_step(q, msgs.first());
        assert(q1.items == q.items.push(msgs.first()));
        lemma_enqueue_all_in_order(q1, msgs.drop_first());
        assert(q.items.push(msgs.first()) + msgs.drop_first() =~= q.items + msgs);
    }
}

/// The bounded work-handoff queue.
pub struct EventQueue {
    items: Vec<Msg>,
    dropped: u64,
}

impl View for EventQueue {
    type V = QueueModel;

    closed spec fn view(&self) -> QueueModel {
        QueueModel { items: self.items@, dropped: self.dropped as nat }
    }
}

impl EventQueue {
    /// Never more messages than the capacity.
    pub open spec fn wf(&self) -> bool {
        self@.items.len() <= QUEUE_CAPACITY
    }

    /// An empty queue.
    pub fn new() -> (r: EventQueue)
        ensures
            r.wf(),
            r@.items == Seq::<Msg>::empty(),
            r@.dropped == 0,
    {
        EventQueue { items: Vec::new(), dropped: 0 }
    }

    /// The number of queued messages.
    pub fn len(&self) -> (r: usize)
        ensures
            r == self@.items.len(),
    {
        self.items.len()
    }

    /// How many messages the drop policies have discarded.
    pub fn dropped_count(&self) -> (r: u64)
        ensures
            r == self@.dropped,
    {
        self.dropped
    }

    /// The index of the oldest queued tick, if any.
    fn find_first_tick(&self) -> (r: Option<usize>)
        ensures
            r matches Some(i) ==> i < self@.items.len() && self@.items[i as int] is Tick && forall|
                j: int,
            | 0 <= j < i ==> !((#[trigger] self@.items[j]) is Tick),
            r is None ==> !has_tick(self@.items),
    {
        let mut i: usize = 0;
        let n = self.items.len();
        while i < n
            invariant
                i <= n,
                n == self.items@.len(),
                forall|j: int| 0 <= j < i ==> !((#[trigger] self.items@[j]) is Tick),
            decreases n - i,
        {
            match self.items[i] {
                Msg::Tick => {
                    return Some(i);
                },
                _ => {},
            }
            i = i + 1;
        }
        None
    }

    /// Offers one message to the queue under the drop policies, and reports
    /// what became of it.
    pub fn enqueue(&mut self, m: Msg) -> (r: EnqueueOutcome)
        requires
            old(self).wf(),
        ensures
            final(self).wf(),
            final(self)@ == enqueue_step(old(self)@, m),
            r == enqueue_outcome(old(self)@.items, m),
    {
        if self.items.len() < QUEUE_CAPACITY {
            self.items.push(m);
            return EnqueueOutcome::Queued;
        }
        let outcome = match m {
            Msg::Tick => EnqueueOutcome::TickCoalesced,
            Msg::Key(_) => {
                match self.find_first_tick() {
                    Some(i) => {
                        proof {
                            let items = self@.items;
                            assert(items[i as int] is Tick);
                            assert(has_tick(items));
                            assert(exists|x: int|
                                0 <= x < items.len() && (#[trigger] items[x]) is Tick && forall|
                                    j: int,
                                | 0 <= j < x ==> !((#[trigger] items[j]) is Tick));
                            let f = first_tick_index(items);
                            assert(0 <= f < items.len() && items[f] is Tick && forall|j: int|
                                0 <= j < f ==> !((#[trigger] items[j]) is Tick));
                            assert(f == i as int);
                        }
                        self.items.remove(i);
                        self.items.push(m);
                        EnqueueOutcome::StaleTickEvicted
                    },
                    None => EnqueueOutcome::Rejected,
                }
            },
        };
        if self.dropped < u64::MAX {
            self.dropped = self.dropped + 1;
        }
        outcome
    }

    /// Takes the oldest queued message, if any.
    pub fn dequeue(&mut self) -> (r: Option<Msg>)
        requires
            old(self).wf(),
        ensures
            final(self).wf(),
            old(self)@.items.len() == 0 ==> r is None && final(self)@ == old(self)@,
            old(self)@.items.len() > 0 ==> r == Some(old(self)@.items.first())
                && final(self)@.items == old(self)@.items.drop_first()
                && final(self)@.dropped == old(self)@.dropped,
    {
        if self.items.len() == 0 {
            proof {
                assert(self@ =~= old(self)@);
            }
            return None;
        }
        let m = self.items.remove(0);
        proof {
            assert(self@.items =~= old(self)@.items.drop_first());
        }
        Some(m)
    }
}

} // verus!
