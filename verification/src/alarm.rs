//! The model of a hardware timer alarm: a compare-match deadline that fires
//! an interrupt. Re-arming after a handler always schedules a firing strictly
//! in the future, so a periodic task can only stop through an explicit reset.

use vstd::prelude::*;

verus! {

/// A periodic alarm: its fixed period and its next deadline, both in
/// microseconds of the device's monotonic timer.
#[derive(Clone, Copy, Debug, PartialEq, Eq, Structural)]
pub struct Alarm {
    pub period_us: u64,
    pub deadline_us: u64,
    pub armed: bool,
}

impl Alarm {
    /// A period of zero could re-fire at the present instant; the period is
    /// always positive.
    pub open spec fn wf(&self) -> bool {
        self.period_us >= 1
    }

    /// An alarm armed for one period after `now`.
    pub fn new(period_us: u64, now: u64) -> (r: Alarm)
        requires
            period_us >= 1,
            now + period_us <= u64::MAX,
        ensures
            r.wf(),
            r.period_us == period_us,
            r.armed,
            r.deadline_us == now + period_us,
            r.deadline_us > now,
    {
        Alarm { period_us, deadline_us: now + period_us, armed: true }
    }

    /// Whether the alarm has fired by `now`.
    pub fn is_due(&self, now: u64) -> (r: bool)
        ensures
            r == (self.armed && self.deadline_us <= now),
    {
        self.armed && self.deadline_us <= now
    }

    /// Re-arms the alarm one period after `now`. The new deadline is strictly
    /// after `now`: the periodic task cannot silently stop.
    pub fn rearm(&mut self, now: u64)
        requires
            old(self).wf(),
            now + old(self).period_us <= u64::MAX,
        ensures
            final(self).wf(),
            *final(self) == rearmed(*old(self), now),
            final(self).period_us == old(self).period_us,
            final(self).armed,
            final(self).deadline_us == now + old(self).period_us,
            final(self).deadline_us > now,
    {
        self.deadline_us = now + self.period_us;
        self.armed = true;
    }
}

/// The alarm state after a re-arm at `now`.
pub open spec fn rearmed(a: Alarm, now: u64) -> Alarm {
    Alarm { period_us: a.period_us, deadline_us: (now + a.period_us) as u64, armed: true }
}

/// Re-arming schedules a firing strictly after `now`, whatever the state was.
pub proof fn lemma_rearm_strictly_future(a: Alarm, now: u64)
    requires
        a.wf(),
        now + a.period_us <= u64::MAX,
    ensures
        rearmed(a, now).armed,
        rearmed(a, now).deadline_us > now,
        rearmed(a, now).wf(),
{
}

} // verus!
