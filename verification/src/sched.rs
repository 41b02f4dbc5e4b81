//! The priority-ordered task table and its dispatch rule. Tasks are activated
//! by alarms or by explicit spawns; the dispatcher always runs the ready task
//! of highest priority, with a fixed tie-break among equal priorities, so no
//! two tasks of the same priority ever run at once.

use vstd::prelude::*;

verus! {

/// The task families of the system.
#[derive(Clone, Copy, Debug, PartialEq, Eq, Structural)]
pub enum TaskId {
    /// Services the USB device interrupt.
    UsbPoll,
    /// Scans the matrix on its periodic alarm.
    Scanner,
    /// Drains the work-handoff queue into the layout engine.
    InputHandler,
    /// Animates the status display on its own periodic alarm.
    DisplayTick,
}

/// The fixed, compile-time priority of each task family. Higher runs first.
pub open spec fn spec_priority(t: TaskId) -> int {
    match t {
        TaskId::UsbPoll => 4,
        TaskId::Scanner => 2,
        TaskId::InputHandler => 2,
        TaskId::DisplayTick => 1,
    }
}

/// The deterministic dispatch rank: priority order, with the hardware-bound
/// scanner breaking the tie against the spawned input handler.
pub open spec fn spec_rank(t: TaskId) -> int {
    match t {
        TaskId::UsbPoll => 3,
        TaskId::Scanner => 2,
        TaskId::InputHandler => 1,
        TaskId::DisplayTick => 0,
    }
}

/// Which task families are ready to run.
#[derive(Clone, Copy, Debug, PartialEq, Eq, Structural)]
pub struct ReadySet {
    pub usb_poll: bool,
    pub scanner: bool,
    pub input_handler: bool,
    pub display_tick: bool,
}

impl ReadySet {
    /// Whether task `t` is ready.
    pub open spec fn is_ready(self, t: TaskId) -> bool {
        match t {
            TaskId::UsbPoll => self.usb_poll,
            TaskId::Scanner => self.scanner,
            TaskId::InputHandler => self.input_handler,
            TaskId::DisplayTick => self.display_tick,
        }
    }

    /// No task is ready.
    pub open spec fn is_idle(self) -> bool {
        !self.usb_poll && !self.scanner && !self.input_handler && !self.display_tick
    }
}

/// The task the dispatcher activates: the ready task of highest rank.
pub open spec fn spec_next_task(r: ReadySet) -> Option<TaskId> {
    if r.usb_poll {
        Some(TaskId::UsbPoll)
    } else if r.scanner {
        Some(TaskId::Scanner)
    } else if r.input_handler {
        Some(TaskId::InputHandler)
    } else if r.display_tick {
        Some(TaskId::DisplayTick)
    } else {
        None
    }
}

/// The priority of task `t`.
pub fn priority(t: TaskId) -> (r: u8)
    ensures
        r as int == spec_priority(t),
{
    match t {
        TaskId::UsbPoll => 4,
        TaskId::Scanner => 2,
        TaskId::InputHandler => 2,
        TaskId::DisplayTick => 1,
    }
}

/// Picks the task to activate: the ready task of highest priority, ties
/// broken by the fixed rank. Returns nothing only when nothing is ready.
pub fn next_task(r: ReadySet) -> (t: Option<TaskId>)
    ensures
        t == spec_next_task(r),
        t is None <==> r.is_idle(),
        t matches Some(tt) ==> r.is_ready(tt) && forall|u: TaskId|
            r.is_ready(u) ==> spec_priority(u) <= spec_priority(tt) && (spec_priority(u)
                == spec_priority(tt) ==> spec_rank(u) <= spec_rank(tt)),
{
    if r.usb_poll {
        Some(TaskId::UsbPoll)
    } else if r.scanner {
        Some(TaskId::Scanner)
    } else if r.input_handler {
        Some(TaskId::InputHandler)
    } else if r.display_tick {
        Some(TaskId::DisplayTick)
    } else {
        None
    }
}

/// The dispatch rule never picks a task over a ready one of higher priority,
/// and never leaves every task waiting while one is ready.
pub proof fn lemma_dispatch_priority(r: ReadySet)
    ensures
        spec_next_task(r) is None <==> r.is_idle(),
        spec_next_task(r) matches Some(t) ==> r.is_ready(t) && forall|u: TaskId|
            r.is_ready(u) ==> spec_priority(u) <= spec_priority(t),
{
}

} // verus!
