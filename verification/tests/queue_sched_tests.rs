//! Behaviour of the bounded work-handoff queue and of the dispatch rule.

use keezus::event::{KeyCoord, KeyEvent, KeyEventKind};
use keezus::queue::{EnqueueOutcome, EventQueue, Msg};
use keezus::sched::{next_task, priority, ReadySet, TaskId};
use keezus::QUEUE_CAPACITY;

fn key_msg(col: usize) -> Msg {
    Msg::Key(KeyEvent { coord: KeyCoord { row: 0, col }, kind: KeyEventKind::Press })
}

#[test]
fn queue_hands_messages_back_in_fifo_order() {
    let mut q = EventQueue::new();
    assert_eq!(q.enqueue(key_msg(1)), EnqueueOutcome::Queued);
    assert_eq!(q.enqueue(Msg::Tick), EnqueueOutcome::Queued);
    assert_eq!(q.enqueue(key_msg(2)), EnqueueOutcome::Queued);
    assert_eq!(q.dequeue(), Some(key_msg(1)));
    assert_eq!(q.dequeue(), Some(Msg::Tick));
    assert_eq!(q.dequeue(), Some(key_msg(2)));
    assert_eq!(q.dequeue(), None);
}

#[test]
fn tick_offered_to_a_full_queue_is_coalesced() {
    let mut q = EventQueue::new();
    for _ in 0..QUEUE_CAPACITY {
        assert_eq!(q.enqueue(Msg::Tick), EnqueueOutcome::Queued);
    }
    assert_eq!(q.enqueue(Msg::Tick), EnqueueOutcome::TickCoalesced);
    assert_eq!(q.len(), QUEUE_CAPACITY);
    assert_eq!(q.dropped_count(), 1);
}

#[test]
fn key_event_offered_to_a_full_queue_evicts_the_oldest_tick() {
    let mut q = EventQueue::new();
    assert_eq!(q.enqueue(key_msg(0)), EnqueueOutcome::Queued);
    assert_eq!(q.enqueue(Msg::Tick), EnqueueOutcome::Queued);
    for col in 1..QUEUE_CAPACITY - 1 {
        assert_eq!(q.enqueue(key_msg(col)), EnqueueOutcome::Queued);
    }
    assert_eq!(q.len(), QUEUE_CAPACITY);
    assert_eq!(q.enqueue(key_msg(9)), EnqueueOutcome::StaleTickEvicted);
    assert_eq!(q.len(), QUEUE_CAPACITY);
    assert_eq!(q.dropped_count(), 1);
    // The oldest tick is gone; every key event survived in order.
    assert_eq!(q.dequeue(), Some(key_msg(0)));
    for col in 1..QUEUE_CAPACITY - 1 {
        assert_eq!(q.dequeue(), Some(key_msg(col)));
    }
    assert_eq!(q.dequeue(), Some(key_msg(9)));
    assert_eq!(q.dequeue(), None);
}

#[test]
fn key_event_offered_to_a_full_queue_of_key_events_is_rejected() {
    let mut q = EventQueue::new();
    for col in 0..QUEUE_CAPACITY {
        assert_eq!(q.enqueue(key_msg(col)), EnqueueOutcome::Queued);
    }
    assert_eq!(q.enqueue(key_msg(9)), EnqueueOutcome::Rejected);
    assert_eq!(q.len(), QUEUE_CAPACITY);
    assert_eq!(q.dropped_count(), 1);
    assert_eq!(q.dequeue(), Some(key_msg(0)));
}

#[test]
fn dispatch_picks_the_highest_priority_ready_task() {
    let all = ReadySet { usb_poll: true, scanner: true, input_handler: true, display_tick: true };
    assert_eq!(next_task(all), Some(TaskId::UsbPoll));
    let no_usb = ReadySet { usb_poll: false, ..all };
    assert_eq!(next_task(no_usb), Some(TaskId::Scanner));
    let input_and_display =
        ReadySet { usb_poll: false, scanner: false, input_handler: true, display_tick: true };
    assert_eq!(next_task(input_and_display), Some(TaskId::InputHandler));
    let display_only =
        ReadySet { usb_poll: false, scanner: false, input_handler: false, display_tick: true };
    assert_eq!(next_task(display_only), Some(TaskId::DisplayTick));
    let idle =
        ReadySet { usb_poll: false, scanner: false, input_handler: false, display_tick: false };
    assert_eq!(next_task(idle), None);
}

#[test]
fn task_priorities_are_fixed() {
    assert_eq!(priority(TaskId::UsbPoll), 4);
    assert_eq!(priority(TaskId::Scanner), 2);
    assert_eq!(priority(TaskId::InputHandler), 2);
    assert_eq!(priority(TaskId::DisplayTick), 1);
}
