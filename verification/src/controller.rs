//! The interrupt-driven control core, assembled: the periodic scan handler
//! (watchdog feed, debounce, queueing, alarm re-arm), the input handler
//! (layout update, report build, transmission decision), and the display
//! handler. Each handler is a step function over the controller's model, and
//! once a custom action has been handed out the model never changes again.

use vstd::prelude::*;

verus! {

use crate::alarm::{rearmed, Alarm};
use crate::debounce::{scan_cells, scan_events, Debouncer, DebouncerModel};
use crate::display::{line_placement, Graphics, LinePlacement, NUM_LINES};
use crate::event::KeyEvent;
use crate::keymap::Keymap;
use crate::layout::{apply_event, apply_tick, tick_output, LayoutModel, LayoutState};
use crate::matrix::MatrixSnapshot;
use crate::queue::{enqueue_all, EventQueue, Msg, QueueModel};
use crate::report::{report_of, HidReport, ReportModel};
use crate::{DEBOUNCE_THRESHOLD, DISPLAY_PERIOD_US, SCAN_PERIOD_US};

/// Whether the run is still in normal operation. Entering update mode is
/// terminal: no handler mutates state afterwards.
#[derive(Clone, Copy, Debug, PartialEq, Eq, Structural)]
pub enum RunMode {
    Running,
    UpdateMode,
}

/// What the input handler asks its caller to do after one step.
#[derive(Clone, Copy, Debug, PartialEq, Eq, Structural)]
pub enum OutputAction {
    /// Nothing to transmit.
    Nothing,
    /// Transmit the current report (see [`Controller::last_report`]) until
    /// the adapter accepts it or the host session ends.
    SendReport,
    /// The custom action fired: reboot into firmware-update mode. This is the
    /// last effect of the run.
    EnterUpdateMode,
}

/// The mathematical state of the whole controller.
#[verifier::ext_equal]
pub ghost struct ControllerModel {
    pub deb: DebouncerModel,
    pub layout: LayoutModel,
    pub queue: QueueModel,
    pub last_report: ReportModel,
    pub scan_alarm: Alarm,
    pub display_alarm: Alarm,
    pub graphics: Graphics,
    pub watchdog_feeds: nat,
    pub mode: RunMode,
}

impl ControllerModel {
    /// Every component invariant, plus the fixed task periods.
    pub open spec fn wf(self) -> bool {
        &&& self.deb.wf()
        &&& self.layout.wf()
        &&& self.queue.items.len() <= crate::QUEUE_CAPACITY
        &&& crate::queue::msgs_wf(self.queue.items)
        &&& self.last_report.wf()
        &&& self.scan_alarm.wf()
        &&& self.scan_alarm.period_us == SCAN_PERIOD_US
        &&& self.display_alarm.wf()
        &&& self.display_alarm.period_us == DISPLAY_PERIOD_US
        &&& self.graphics.wf()
    }
}

/// The key events of one scan as queue messages, in emission order.
pub open spec fn msgs_of_events(events: Seq<KeyEvent>) -> Seq<Msg> {
    events.map_values(|e: KeyEvent| Msg::Key(e))
}

/// The watchdog feed counter after one more feed, saturating.
pub open spec fn fed_once(feeds: nat) -> nat {
    if feeds < u64::MAX {
        feeds + 1
    } else {
        feeds
    }
}

/// The controller after the periodic scan handler ran at `now` on the raw
/// snapshot `raw`: the watchdog is fed, every cell is debounced, the emitted
/// events are queued in row-major order followed by the period's tick, and
/// the scan alarm is re-armed strictly into the future.
pub open spec fn spec_on_scan(m: ControllerModel, raw: Seq<bool>, now: u64) -> ControllerModel {
    if m.mode != RunMode::Running {
        m
    } else {
        ControllerModel {
            deb: scan_cells(m.deb, raw),
            queue: enqueue_all(m.queue, msgs_of_events(scan_events(m.deb, raw)).push(Msg::Tick)),
            scan_alarm: rearmed(m.scan_alarm, now),
            watchdog_feeds: fed_once(m.watchdog_feeds),
            ..m
        }
    }
}

/// The controller after the input handler processed one queued message.
pub open spec fn spec_process_state(m: ControllerModel, usb_configured: bool) -> ControllerModel {
    if m.mode != RunMode::Running || m.queue.items.len() == 0 {
        m
    } else {
        let rest = QueueModel { items: m.queue.items.drop_first(), dropped: m.queue.dropped };
        match m.queue.items.first() {
            Msg::Key(e) => ControllerModel { layout: apply_event(m.layout, e), queue: rest, ..m },
            Msg::Tick => {
                let l2 = apply_tick(m.layout);
                match tick_output(m.layout) {
                    Some(_) => ControllerModel {
                        layout: l2,
                        queue: rest,
                        mode: RunMode::UpdateMode,
                        ..m
                    },
                    None => {
                        let r = report_of(l2.held);
                        if r == m.last_report {
                            ControllerModel { layout: l2, queue: rest, ..m }
                        } else {
                            ControllerModel { layout: l2, queue: rest, last_report: r, ..m }
                        }
                    },
                }
            },
        }
    }
}

/// What the input handler asks for after processing one queued message: a key
/// event never transmits by itself; a tick transmits the freshly derived
/// report exactly when it differs from the last one and a host session is
/// active, and hands out a due custom action instead of a report.
pub open spec fn spec_process_output(m: ControllerModel, usb_configured: bool) -> OutputAction {
    if m.mode != RunMode::Running || m.queue.items.len() == 0 {
        OutputAction::Nothing
    } else {
        match m.queue.items.first() {
            Msg::Key(_) => OutputAction::Nothing,
            Msg::Tick => match tick_output(m.layout) {
                Some(_) => OutputAction::EnterUpdateMode,
                None => {
                    let r = report_of(m.layout.held);
                    if r == m.last_report {
                        OutputAction::Nothing
                    } else if usb_configured {
                        OutputAction::SendReport
                    } else {
                        OutputAction::Nothing
                    }
                },
            },
        }
    }
}

/// The controller after the display handler ran at `now`: the scroll offset
/// advances one pixel and the display alarm is re-armed strictly into the
/// future.
pub open spec fn spec_on_display(m: ControllerModel, now: u64) -> ControllerModel {
    if m.mode != RunMode::Running {
        m
    } else {
        ControllerModel {
            graphics: Graphics {
                x: m.graphics.x,
                y: ((m.graphics.y + 1) % (crate::display::TOTAL_SCROLL as int)) as i32,
            },
            display_alarm: rearmed(m.display_alarm, now),
            ..m
        }
    }
}

/// The frame drawn for scroll offset `y`.
pub open spec fn frame_of(y: int) -> Seq<LinePlacement> {
    Seq::new(NUM_LINES as nat, |i: int| line_placement(y, i))
}

/// The control core: all task state behind the handlers.
pub struct Controller {
    debouncer: Debouncer,
    layout: LayoutState,
    queue: EventQueue,
    last_report: HidReport,
    scan_alarm: Alarm,
    display_alarm: Alarm,
    graphics: Graphics,
    watchdog_feeds: u64,
    mode: RunMode,
}

impl View for Controller {
    type V = ControllerModel;

    closed spec fn view(&self) -> ControllerModel {
        ControllerModel {
            deb: self.debouncer@,
            layout: self.layout@,
            queue: self.queue@,
            last_report: self.last_report@,
            scan_alarm: self.scan_alarm,
            display_alarm: self.display_alarm,
            graphics: self.graphics,
            watchdog_feeds: self.watchdog_feeds as nat,
            mode: self.mode,
        }
    }
}

impl Controller {
    /// The model invariant, plus the private component invariants.
    pub closed spec fn wf(&self) -> bool {
        &&& self@.wf()
        &&& self.debouncer.wf()
        &&& self.layout.wf()
        &&& self.queue.wf()
    }

    /// Brings the control core up at time `now`: fresh debouncer with the
    /// debounce threshold, empty layout state over `keymap`, empty queue,
    /// empty report, both periodic alarms armed one period ahead, the
    /// animator at its origin, and the run in normal operation.
    pub fn new(keymap: Keymap, now: u64) -> (r: Controller)
        requires
            keymap.wf(),
            now + DISPLAY_PERIOD_US <= u64::MAX,
            now + SCAN_PERIOD_US <= u64::MAX,
        ensures
            r.wf(),
            r@.deb.threshold == DEBOUNCE_THRESHOLD,
            forall|i: int|
                0 <= i < crate::NUM_KEYS ==> (#[trigger] r@.deb.cells[i])
                    == (crate::debounce::CellState { stable: false, count: 0 }),
            r@.layout.layers == keymap@,
            r@.layout.held == Seq::<crate::layout::HeldKey>::empty(),
            r@.layout.pending is None,
            r@.queue.items == Seq::<Msg>::empty(),
            r@.queue.dropped == 0,
            r@.last_report == ReportModel::empty(),
            r@.scan_alarm == (Alarm {
                period_us: SCAN_PERIOD_US,
                deadline_us: (now + SCAN_PERIOD_US) as u64,
                armed: true,
            }),
            r@.display_alarm == (Alarm {
                period_us: DISPLAY_PERIOD_US,
                deadline_us: (now + DISPLAY_PERIOD_US) as u64,
                armed: true,
            }),
            r@.graphics == (Graphics { x: 0, y: 0 }),
            r@.watchdog_feeds == 0,
            r@.mode == RunMode::Running,
    {
        Controller {
            debouncer: Debouncer::new(false, DEBOUNCE_THRESHOLD),
            layout: LayoutState::new(keymap),
            queue: EventQueue::new(),
            last_report: HidReport::new(),
            scan_alarm: Alarm::new(SCAN_PERIOD_US, now),
            display_alarm: Alarm::new(DISPLAY_PERIOD_US, now),
            graphics: Graphics::new(),
            watchdog_feeds: 0,
            mode: RunMode::Running,
        }
    }

    /// The periodic scan handler: feeds the watchdog, debounces the raw
    /// snapshot, queues the period's events in row-major order and then its
    /// tick, and re-arms the scan alarm strictly into the future.
    pub fn on_scan(&mut self, raw: &MatrixSnapshot, now: u64)
        requires
            old(self).wf(),
            raw.wf(),
            now + SCAN_PERIOD_US <= u64::MAX,
        ensures
            final(self).wf(),
            final(self)@ == spec_on_scan(old(self)@, raw@, now),
    {
        let ghost m0 = self@;
        match self.mode {
            RunMode::UpdateMode => {
                return ;
            },
            RunMode::Running => {},
        }
        if self.watchdog_feeds < u64::MAX {
            self.watchdog_feeds = self.watchdog_feeds + 1;
        }
        let events = self.debouncer.scan(raw);
        let ghost q0 = self.queue@;
        let ghost msgs = msgs_of_events(scan_events(m0.deb, raw@));
        let mut i: usize = 0;
        let n = events.len();
        proof {
            assert(msgs.take(0) =~= Seq::<Msg>::empty());
            assert(enqueue_all(q0, msgs.take(0)) == q0);
        }
        while i < n
            invariant
                i <= n,
                n == events@.len(),
                events@ == scan_events(m0.deb, raw@),
                msgs == msgs_of_events(scan_events(m0.deb, raw@)),
                self.queue.wf(),
                self.queue@ == enqueue_all(q0, msgs.take(i as int)),
                self.debouncer@ == scan_cells(m0.deb, raw@),
                self.debouncer.wf(),
                self.layout@ == m0.layout,
                self.layout.wf(),
                self.last_report@ == m0.last_report,
                self.scan_alarm == m0.scan_alarm,
                self.display_alarm == m0.display_alarm,
                self.graphics == m0.graphics,
                self.mode == RunMode::Running,
                self.watchdog_feeds as nat == fed_once(m0.watchdog_feeds),
            decreases n - i,
        {
            self.queue.enqueue(Msg::Key(events[i]));
            i = i + 1;
            proof {
                assert(msgs.take(i as int) =~= msgs.take(i - 1).push(
                    Msg::Key(events@[i - 1]),
                ));
                crate::queue::lemma_enqueue_all_push(
                    q0,
                    msgs.take(i - 1),
                    Msg::Key(events@[i - 1]),
                );
            }
        }
        self.queue.enqueue(Msg::Tick);
        proof {
            assert(msgs.take(n as int) =~= msgs);
            crate::queue::lemma_enqueue_all_push(q0, msgs, Msg::Tick);
        }
        self.scan_alarm.rearm(now);
        proof {
            let all = msgs.push(Msg::Tick);
            assert(crate::queue::msgs_wf(all)) by {
                assert forall|j: int|
                    0 <= j < all.len() implies ((#[trigger] all[j]) matches Msg::Key(e)
                    ==> e.wf()) by {
                    if j < msgs.len() {
                        assert(all[j] == Msg::Key(events@[j]));
                        assert(events@[j].wf());
                    }
                }
            }
            crate::queue::lemma_enqueue_all_msgs_wf(q0, all);
            assert(self@ =~= spec_on_scan(m0, raw@, now));
        }
    }

    /// The input handler: processes one queued message — a key event feeds
    /// the layout engine; a tick hands out a due custom action (terminally)
    /// or derives the report, records it when it changed, and asks for a
    /// transmission exactly when a host session is active.
    pub fn process_next(&mut self, usb_configured: bool) -> (r: OutputAction)
        requires
            old(self).wf(),
        ensures
            final(self).wf(),
            final(self)@ == spec_process_state(old(self)@, usb_configured),
            r == spec_process_output(old(self)@, usb_configured),
    {
        let ghost m0 = self@;
        match self.mode {
            RunMode::UpdateMode => {
                return OutputAction::Nothing;
            },
            RunMode::Running => {},
        }
        let msg = match self.queue.dequeue() {
            None => {
                proof {
                    assert(self@ =~= m0);
                }
                return OutputAction::Nothing;
            },
            Some(msg) => msg,
        };
        proof {
            let items = m0.queue.items;
            assert(items[0] matches Msg::Key(e) ==> e.wf());
            assert(crate::queue::msgs_wf(items.drop_first())) by {
                assert forall|j: int|
                    0 <= j < items.drop_first().len() implies ((
                #[trigger] items.drop_first()[j]) matches Msg::Key(e) ==> e.wf()) by {
                    assert(items.drop_first()[j] == items[j + 1]);
                }
            }
        }
        match msg {
            Msg::Key(e) => {
                self.layout.key_event(e);
                proof {
                    assert(self@ =~= spec_process_state(m0, usb_configured));
                }
                OutputAction::Nothing
            },
            Msg::Tick => {
                match self.layout.tick() {
                    Some(_) => {
                        self.mode = RunMode::UpdateMode;
                        proof {
                            assert(self@ =~= spec_process_state(m0, usb_configured));
                        }
                        OutputAction::EnterUpdateMode
                    },
                    None => {
                        let report = HidReport::build(self.layout.held_entries());
                        if report.same_as(&self.last_report) {
                            proof {
                                assert(self@ =~= spec_process_state(m0, usb_configured));
                            }
                            OutputAction::Nothing
                        } else {
                            self.last_report = report;
                            proof {
                                assert(self@ =~= spec_process_state(m0, usb_configured));
                            }
                            if usb_configured {
                                OutputAction::SendReport
                            } else {
                                OutputAction::Nothing
                            }
                        }
                    },
                }
            },
        }
    }

    /// The display handler: computes the frame for the current scroll offset,
    /// advances the offset one pixel modulo the scroll height, and re-arms
    /// the display alarm strictly into the future.
    pub fn on_display(&mut self, now: u64) -> (r: Vec<LinePlacement>)
        requires
            old(self).wf(),
            now + DISPLAY_PERIOD_US <= u64::MAX,
        ensures
            final(self).wf(),
            final(self)@ == spec_on_display(old(self)@, now),
            old(self)@.mode == RunMode::Running ==> r@ == frame_of(old(self)@.graphics.y as int),
            old(self)@.mode != RunMode::Running ==> r@ == Seq::<LinePlacement>::empty(),
    {
        let ghost m0 = self@;
        match self.mode {
            RunMode::UpdateMode => {
                return Vec::new();
            },
            RunMode::Running => {},
        }
        let frame = self.graphics.frame();
        self.graphics.advance();
        self.display_alarm.rearm(now);
        proof {
            assert(self@ =~= spec_on_display(m0, now));
            assert(frame@ =~= frame_of(m0.graphics.y as int));
        }
        frame
    }

    /// The decision of the transmission retry loop after one non-blocking
    /// write attempt returned `written` bytes: retry exactly while the
    /// adapter accepted nothing.
    pub fn retry_after_write(written: usize) -> (r: bool)
        ensures
            r == (written == 0),
    {
        written == 0
    }

    /// The report last recorded for transmission.
    pub fn last_report(&self) -> (r: &HidReport)
        ensures
            r@ == self@.last_report,
    {
        &self.last_report
    }

    /// Whether the run is still in normal operation.
    pub fn mode(&self) -> (r: RunMode)
        ensures
            r == self@.mode,
    {
        self.mode
    }

    /// The scan task's alarm state.
    pub fn scan_alarm_state(&self) -> (r: Alarm)
        ensures
            r == self@.scan_alarm,
    {
        self.scan_alarm
    }

    /// The display task's alarm state.
    pub fn display_alarm_state(&self) -> (r: Alarm)
        ensures
            r == self@.display_alarm,
    {
        self.display_alarm
    }

    /// How many messages the queue's drop policies have discarded.
    pub fn dropped_messages(&self) -> (r: u64)
        ensures
            r == self@.queue.dropped,
    {
        self.queue.dropped_count()
    }

    /// How many scans have fed the watchdog.
    pub fn watchdog_feed_count(&self) -> (r: u64)
        ensures
            r == self@.watchdog_feeds,
    {
        self.watchdog_feeds
    }

    /// How many messages are queued for the input handler.
    pub fn queued_messages(&self) -> (r: usize)
        ensures
            r == self@.queue.items.len(),
    {
        self.queue.len()
    }
}

/// Entering update mode is terminal: after the custom action has been handed
/// out, no handler changes the controller's state, and nothing further is
/// transmitted.
pub proof fn lemma_update_mode_is_terminal(
    m: ControllerModel,
    raw: Seq<bool>,
    now: u64,
    usb_configured: bool,
)
    requires
        m.mode != RunMode::Running,
    ensures
        spec_on_scan(m, raw, now) == m,
        spec_process_state(m, usb_configured) == m,
        spec_process_output(m, usb_configured) == OutputAction::Nothing,
        spec_on_display(m, now) == m,
{
}

/// The periodic handlers always leave their alarm armed with a deadline
/// strictly after `now`: absent an explicit reset, the periodic tasks never
/// silently stop.
pub proof fn lemma_handlers_keep_alarms_armed(
    m: ControllerModel,
    raw: Seq<bool>,
    now: u64,
)
    requires
        m.wf(),
        m.mode == RunMode::Running,
        now + SCAN_PERIOD_US <= u64::MAX,
        now + DISPLAY_PERIOD_US <= u64::MAX,
    ensures
        spec_on_scan(m, raw, now).scan_alarm.armed,
        spec_on_scan(m, raw, now).scan_alarm.deadline_us > now,
        spec_on_display(m, now).display_alarm.armed,
        spec_on_display(m, now).display_alarm.deadline_us > now,
{
}

/// Within one scan period, the period's key events reach the input task in
/// deterministic row-major order, and all of them before the period's tick:
/// while the queue has room, the handler appends exactly the emitted events,
/// in order, followed by the tick.
pub proof fn lemma_scan_orders_events_before_tick(m: ControllerModel, raw: Seq<bool>, now: u64)
    requires
        m.mode == RunMode::Running,
        m.queue.items.len() + scan_events(m.deb, raw).len() + 1 <= crate::QUEUE_CAPACITY,
    ensures
        spec_on_scan(m, raw, now).queue.items == m.queue.items + msgs_of_events(
            scan_events(m.deb, raw),
        ) + seq![Msg::Tick],
        spec_on_scan(m, raw, now).queue.dropped == m.queue.dropped,
{
    let msgs = msgs_of_events(scan_events(m.deb, raw));
    crate::queue::lemma_enqueue_all_in_order(m.queue, msgs.push(Msg::Tick));
    assert(m.queue.items + msgs.push(Msg::Tick) =~= m.queue.items + msgs + seq![Msg::Tick]);
}

/// Every scan in normal operation feeds the watchdog.
pub proof fn lemma_scan_feeds_watchdog(m: ControllerModel, raw: Seq<bool>, now: u64)
    requires
        m.mode == RunMode::Running,
        m.watchdog_feeds < u64::MAX,
    ensures
        spec_on_scan(m, raw, now).watchdog_feeds == m.watchdog_feeds + 1,
{
}

} // verus!
