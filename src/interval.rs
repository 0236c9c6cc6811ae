use vstd::prelude::*;
use crate::scheduler::{ManualScheduler, ManualSchedulerView, RepeatingTask, TaskHandle, first_delay_spec, sat_add};

verus! {

/// A producer that emits the tick numbers 0, 1, 2, ... every `dur` units,
/// from `at` on or, without a start, one period after subscription. It never
/// fails and never completes on its own; `limit` caps how many ticks it emits.
#[derive(Clone, Copy, Debug, PartialEq, Eq)]
pub struct IntervalObservable {
    pub dur: u64,
    pub at: Option<u64>,
    pub limit: Option<u64>,
}

/// Fires `dur` units from subscription, and every `dur` units after.
pub fn interval(dur: u64) -> (r: IntervalObservable)
    ensures
        r == (IntervalObservable { dur, at: None, limit: None }),
{
    IntervalObservable { dur, at: None, limit: None }
}

/// Fires at `at`, and every `dur` units after.
pub fn interval_at(at: u64, dur: u64) -> (r: IntervalObservable)
    ensures
        r == (IntervalObservable { dur, at: Some(at), limit: None }),
{
    IntervalObservable { dur, at: Some(at), limit: None }
}

/// The task that subscribing `o` at instant `now` schedules.
pub open spec fn interval_task(o: IntervalObservable, now: nat) -> RepeatingTask {
    RepeatingTask {
        due: sat_add(
            now as u64,
            first_delay_spec(
                now,
                o.dur as nat,
                match o.at {
                    None => None,
                    Some(a) => Some(a as nat),
                },
            ) as u64,
        ),
        period: o.dur,
        fired: 0,
        limit: o.limit,
        closed: o.limit == Some(0u64),
    }
}

impl IntervalObservable {
    /// Emits at most the first `n` ticks.
    pub fn take(self, n: u64) -> (r: IntervalObservable)
        ensures
            r == (IntervalObservable {
                limit: match self.limit {
                    Some(l) => Some(if l < n { l } else { n }),
                    None => Some(n),
                },
                ..self
            }),
    {
        let limit = match self.limit {
            Some(l) => if l < n {
                l
            } else {
                n
            },
            None => n,
        };
        IntervalObservable { limit: Some(limit), ..self }
    }

    /// Starts the ticks on `scheduler`; each firing of the returned task is
    /// one emission, carrying its tick number. Cancelling the task is
    /// unsubscribing.
    pub fn subscribe(self, scheduler: &mut ManualScheduler) -> (h: TaskHandle)
        requires
            old(scheduler).wf(),
        ensures
            final(scheduler).wf(),
            h.task == old(scheduler)@.tasks.len(),
            final(scheduler)@ == (ManualSchedulerView {
                tasks: old(scheduler)@.tasks.push(interval_task(self, old(scheduler)@.now)),
                ..old(scheduler)@
            }),
    {
        scheduler.schedule_repeating(self.dur, self.at, self.limit)
    }
}

} // verus!
