use vstd::prelude::*;

verus! {

/// One unit of scheduled work on the virtual clock. It fires at each
/// instant from `due` on, every `period` units, handing out consecutive tick
/// numbers, until it is cancelled or has fired `limit` times.
#[derive(Clone, Copy, Debug, PartialEq, Eq)]
pub struct RepeatingTask {
    pub due: u64,
    pub period: u64,
    pub fired: u64,
    pub limit: Option<u64>,
    pub closed: bool,
}

/// One firing: which task ran, and the tick number it was handed.
#[derive(Clone, Copy, Debug, PartialEq, Eq)]
pub struct Firing {
    pub task: usize,
    pub tick: u64,
}

/// The cancellation handle of one scheduled task.
#[derive(Clone, Copy, Debug, PartialEq, Eq)]
pub struct TaskHandle {
    pub task: usize,
}

/// A scheduler on a clock that moves only when told to, for deterministic
/// runs. Firings happen in the order of the instants at which they fall
/// due; at one instant, in the order the tasks were scheduled.
pub struct ManualScheduler {
    now: u64,
    swept: u64,
    tasks: Vec<RepeatingTask>,
}

pub struct ManualSchedulerView {
    pub now: nat,
    pub swept: nat,
    pub tasks: Seq<RepeatingTask>,
}

impl View for ManualScheduler {
    type V = ManualSchedulerView;

    closed spec fn view(&self) -> ManualSchedulerView {
        ManualSchedulerView { now: self.now as nat, swept: self.swept as nat, tasks: self.tasks@ }
    }
}

/// The delay before the first firing of a repeating task scheduled at
/// `now`: the period when no start is given, the time left until `at`
/// otherwise, and none when `at` has already passed.
pub open spec fn first_delay_spec(now: nat, period: nat, at: Option<nat>) -> nat {
    match at {
        None => period,
        Some(a) => if a > now {
            (a - now) as nat
        } else {
            0
        },
    }
}

pub fn first_delay(now: u64, period: u64, at: Option<u64>) -> (r: u64)
    ensures
        r == first_delay_spec(now as nat, period as nat, match at {
            None => None,
            Some(a) => Some(a as nat),
        }),
{
    match at {
        None => period,
        Some(a) => if a > now {
            a - now
        } else {
            0
        },
    }
}

pub open spec fn sat_add(a: u64, b: u64) -> u64 {
    if a + b > u64::MAX {
        u64::MAX
    } else {
        (a + b) as u64
    }
}

pub open spec fn fires(task: RepeatingTask, t: int) -> bool {
    !task.closed && task.due <= t && task.fired < u64::MAX
}

/// The task after one firing.
pub open spec fn after_firing(task: RepeatingTask) -> RepeatingTask {
    let fired = (task.fired + 1) as u64;
    RepeatingTask {
        due: sat_add(task.due, task.period),
        fired,
        closed: match task.limit {
            Some(l) => fired >= l,
            None => false,
        },
        ..task
    }
}

/// The firings at instant `t` of the first `i` tasks.
pub open spec fn instant(tasks: Seq<RepeatingTask>, t: int, i: nat) -> (Seq<RepeatingTask>, Seq<Firing>)
    decreases i,
{
    if i == 0 {
        (tasks, Seq::empty())
    } else {
        let (ts, out) = instant(tasks, t, (i - 1) as nat);
        let k = i - 1;
        if k < ts.len() && fires(ts[k], t) {
            (ts.update(k, after_firing(ts[k])), out.push(Firing { task: k as usize, tick: ts[k].fired }))
        } else {
            (ts, out)
        }
    }
}

/// The firings at every instant from `from` to `to`, both included.
pub open spec fn sweep(tasks: Seq<RepeatingTask>, from: int, to: int) -> (Seq<RepeatingTask>, Seq<Firing>)
    decreases to - from + 1,
{
    if to < from {
        (tasks, Seq::empty())
    } else {
        let (ts, o1) = sweep(tasks, from, to - 1);
        let (ts2, o2) = instant(ts, to, ts.len());
        (ts2, o1 + o2)
    }
}

/// The tick numbers handed to task `k`, in order.
pub open spec fn ticks_of(out: Seq<Firing>, k: usize) -> Seq<u64>
    decreases out.len(),
{
    if out.len() == 0 {
        Seq::empty()
    } else {
        let r = ticks_of(out.drop_last(), k);
        if out.last().task == k {
            r.push(out.last().tick)
        } else {
            r
        }
    }
}

/// The ticks `a`, `a + 1`, ..., `b - 1`.
pub open spec fn tick_range(a: u64, b: u64) -> Seq<u64> {
    Seq::new((b - a) as nat, |j: int| (a + j) as u64)
}

proof fn lemma_ticks_push(out: Seq<Firing>, f: Firing, k: usize)
    ensures
        ticks_of(out.push(f), k) == if f.task == k {
            ticks_of(out, k).push(f.tick)
        } else {
            ticks_of(out, k)
        },
{
    assert(out.push(f).drop_last() =~= out);
}

proof fn lemma_ticks_concat(a: Seq<Firing>, b: Seq<Firing>, k: usize)
    ensures
        ticks_of(a + b, k) == ticks_of(a, k) + ticks_of(b, k),
    decreases b.len(),
{
    if b.len() == 0 {
        assert(a + b =~= a);
        assert(ticks_of(a, k) + ticks_of(b, k) =~= ticks_of(a, k));
    } else {
        assert((a + b).drop_last() =~= a + b.drop_last());
        lemma_ticks_concat(a, b.drop_last(), k);
        if b.last().task == k {
            assert(ticks_of(a + b, k) =~= ticks_of(a, k) + ticks_of(b, k));
        } else {
            assert(ticks_of(a + b, k) =~= ticks_of(a, k) + ticks_of(b, k));
        }
    }
}

proof fn lemma_range_push(a: u64, b: u64)
    requires
        a <= b < u64::MAX,
    ensures
        tick_range(a, b).push(b) == tick_range(a, (b + 1) as u64),
{
    assert(tick_range(a, b).push(b) =~= tick_range(a, (b + 1) as u64));
}

/// Ticks handed out over two runs, one after the other, run on without a
/// gap or a repeat.
pub proof fn lemma_range_concat(a: u64, b: u64, c: u64)
    requires
        a <= b <= c,
    ensures
        tick_range(a, b) + tick_range(b, c) == tick_range(a, c),
{
    assert(tick_range(a, b) + tick_range(b, c) =~= tick_range(a, c));
}

proof fn lemma_instant(tasks: Seq<RepeatingTask>, t: int, i: nat)
    requires
        i <= tasks.len(),
        tasks.len() <= usize::MAX,
    ensures
        instant(tasks, t, i).0.len() == tasks.len(),
        forall|j: int| i <= j < tasks.len() ==> instant(tasks, t, i).0[j] == tasks[j],
        forall|k: usize|
            k < tasks.len() ==> tasks[k as int].fired <= #[trigger] instant(tasks, t, i).0[k as int].fired
                && ticks_of(instant(tasks, t, i).1, k) == tick_range(
                tasks[k as int].fired,
                instant(tasks, t, i).0[k as int].fired,
            ),
    decreases i,
{
    if i == 0 {
        assert forall|k: usize| k < tasks.len() implies ticks_of(instant(tasks, t, i).1, k)
            == tick_range(tasks[k as int].fired, tasks[k as int].fired) by {
            assert(tick_range(tasks[k as int].fired, tasks[k as int].fired) =~= Seq::empty());
        }
    } else {
        lemma_instant(tasks, t, (i - 1) as nat);
        let (ts, out) = instant(tasks, t, (i - 1) as nat);
        let k = i - 1;
        if fires(ts[k], t) {
            let f = Firing { task: k as usize, tick: ts[k].fired };
            assert forall|j: usize| j < tasks.len() implies ticks_of(out.push(f), j) == tick_range(
                tasks[j as int].fired,
                instant(tasks, t, i).0[j as int].fired,
            ) by {
                assert(tasks[j as int].fired <= ts[j as int].fired);
                assert(instant(tasks, t, i).0 == ts.update(k, after_firing(ts[k])));
                lemma_ticks_push(out, f, j);
                if j == k {
                    lemma_range_push(tasks[j as int].fired, ts[k].fired);
                }
            }
        }
    }
}

proof fn lemma_sweep(tasks: Seq<RepeatingTask>, from: int, to: int)
    requires
        tasks.len() <= usize::MAX,
    ensures
        sweep(tasks, from, to).0.len() == tasks.len(),
        forall|k: usize|
            k < tasks.len() ==> tasks[k as int].fired <= #[trigger] sweep(tasks, from, to).0[k as int].fired
                && ticks_of(sweep(tasks, from, to).1, k) == tick_range(
                tasks[k as int].fired,
                sweep(tasks, from, to).0[k as int].fired,
            ),
    decreases to - from + 1,
{
    if to < from {
        assert forall|k: usize| k < tasks.len() implies ticks_of(sweep(tasks, from, to).1, k)
            == tick_range(tasks[k as int].fired, tasks[k as int].fired) by {
            assert(tick_range(tasks[k as int].fired, tasks[k as int].fired) =~= Seq::empty());
        }
    } else {
        lemma_sweep(tasks, from, to - 1);
        let (ts, o1) = sweep(tasks, from, to - 1);
        lemma_instant(ts, to, ts.len());
        let (ts2, o2) = instant(ts, to, ts.len());
        assert forall|k: usize| k < tasks.len() implies ticks_of(o1 + o2, k) == tick_range(
            tasks[k as int].fired,
            ts2[k as int].fired,
        ) by {
            lemma_ticks_concat(o1, o2, k);
            lemma_range_concat(tasks[k as int].fired, ts[k as int].fired, ts2[k as int].fired);
        }
    }
}

pub open spec fn cancel(tasks: Seq<RepeatingTask>, k: usize) -> Seq<RepeatingTask> {
    if k < tasks.len() {
        tasks.update(k as int, RepeatingTask { closed: true, ..tasks[k as int] })
    } else {
        tasks
    }
}

pub open spec fn task_closed(tasks: Seq<RepeatingTask>, k: usize) -> bool {
    k >= tasks.len() || tasks[k as int].closed
}

fn after_firing_exec(task: RepeatingTask) -> (r: RepeatingTask)
    requires
        task.fired < u64::MAX,
    ensures
        r == after_firing(task),
{
    let fired = task.fired + 1;
    let due = if task.due > u64::MAX - task.period {
        u64::MAX
    } else {
        task.due + task.period
    };
    let closed = match task.limit {
        Some(l) => fired >= l,
        None => false,
    };
    RepeatingTask { due, fired, closed, ..task }
}

impl ManualScheduler {
    pub closed spec fn wf(&self) -> bool {
        self.swept <= self.now < u64::MAX
    }

    /// A scheduler whose clock reads `now` and that holds no task.
    pub fn new(now: u64) -> (r: Self)
        requires
            now < u64::MAX,
        ensures
            r.wf(),
            r@.now == now,
            r@.tasks.len() == 0,
    {
        ManualScheduler { now, swept: now, tasks: Vec::new() }
    }

    /// The instant the clock reads.
    pub fn now(&self) -> (r: u64)
        ensures
            r == self@.now,
    {
        self.now
    }

    /// Moves the clock on by `d`; nothing runs until `run_tasks`.
    pub fn advance(&mut self, d: u64)
        requires
            old(self).wf(),
            old(self)@.now + d < u64::MAX,
        ensures
            final(self).wf(),
            final(self)@ == (ManualSchedulerView { now: old(self)@.now + d as nat, ..old(self)@ }),
    {
        self.now = self.now + d;
    }

    fn push_task(&mut self, task: RepeatingTask) -> (h: TaskHandle)
        requires
            old(self).wf(),
        ensures
            final(self).wf(),
            h.task == old(self)@.tasks.len(),
            final(self)@ == (ManualSchedulerView {
                tasks: old(self)@.tasks.push(task),
                ..old(self)@
            }),
    {
        let k = self.tasks.len();
        self.tasks.push(task);
        TaskHandle { task: k }
    }

    /// Runs one task once, after `delay` (at once when none is given).
    pub fn schedule(&mut self, delay: Option<u64>) -> (h: TaskHandle)
        requires
            old(self).wf(),
        ensures
            final(self).wf(),
            h.task == old(self)@.tasks.len(),
            final(self)@ == (ManualSchedulerView {
                tasks: old(self)@.tasks.push(
                    RepeatingTask {
                        due: sat_add(
                            old(self)@.now as u64,
                            match delay {
                                Some(d) => d,
                                None => 0,
                            },
                        ),
                        period: 0,
                        fired: 0,
                        limit: Some(1),
                        closed: false,
                    },
                ),
                ..old(self)@
            }),
    {
        let d = match delay {
            Some(d) => d,
            None => 0,
        };
        let due = if self.now > u64::MAX - d {
            u64::MAX
        } else {
            self.now + d
        };
        self.push_task(RepeatingTask { due, period: 0, fired: 0, limit: Some(1), closed: false })
    }

    /// Runs one task every `period`, from `at` on or, when no start is given,
    /// one period from now; a start that has passed fires at once. With a
    /// `limit`, the task stops after that many firings.
    pub fn schedule_repeating(&mut self, period: u64, at: Option<u64>, limit: Option<u64>) -> (h:
        TaskHandle)
        requires
            old(self).wf(),
        ensures
            final(self).wf(),
            h.task == old(self)@.tasks.len(),
            final(self)@ == (ManualSchedulerView {
                tasks: old(self)@.tasks.push(
                    RepeatingTask {
                        due: sat_add(
                            old(self)@.now as u64,
                            first_delay_spec(
                                old(self)@.now,
                                period as nat,
                                match at {
                                    None => None,
                                    Some(a) => Some(a as nat),
                                },
                            ) as u64,
                        ),
                        period,
                        fired: 0,
                        limit,
                        closed: limit == Some(0u64),
                    },
                ),
                ..old(self)@
            }),
    {
        let d = first_delay(self.now, period, at);
        let due = if self.now > u64::MAX - d {
            u64::MAX
        } else {
            self.now + d
        };
        let closed = match limit {
            Some(l) => l == 0,
            None => false,
        };
        self.push_task(RepeatingTask { due, period, fired: 0, limit, closed })
    }

    /// Cancels a task: it fires no more; past firings stand. Cancelling
    /// again changes nothing.
    pub fn unsubscribe(&mut self, h: TaskHandle)
        requires
            old(self).wf(),
        ensures
            final(self).wf(),
            final(self)@ == (ManualSchedulerView { tasks: cancel(old(self)@.tasks, h.task), ..old(self)@ }),
            task_closed(final(self)@.tasks, h.task),
    {
        if h.task < self.tasks.len() {
            let t = self.tasks[h.task];
            self.tasks.set(h.task, RepeatingTask { closed: true, ..t });
        }
    }

    /// Whether a task will fire no more.
    pub fn is_closed(&self, h: TaskHandle) -> (r: bool)
        ensures
            r == task_closed(self@.tasks, h.task),
    {
        h.task >= self.tasks.len() || self.tasks[h.task].closed
    }

    fn run_instant(&mut self, t: u64, out: &mut Vec<Firing>)
        requires
            old(self).wf(),
            old(self)@.swept <= t <= old(self)@.now,
        ensures
            final(self).wf(),
            final(self)@.now == old(self)@.now,
            final(self)@.swept == old(self)@.swept,
            final(self)@.tasks == instant(old(self)@.tasks, t as int, old(self)@.tasks.len()).0,
            final(out)@ == old(out)@ + instant(old(self)@.tasks, t as int, old(self)@.tasks.len()).1,
    {
        let n = self.tasks.len();
        let ghost ts0 = self.tasks@;
        let ghost o0 = out@;
        let mut i: usize = 0;
        proof {
            assert(o0 + Seq::<Firing>::empty() =~= o0);
        }
        while i < self.tasks.len()
            invariant
                self.wf(),
                self.now == old(self).now,
                self.swept == old(self).swept,
                ts0.len() == self.tasks.len(),
                ts0.len() <= usize::MAX,
                i <= ts0.len(),
                self.tasks@ == instant(ts0, t as int, i as nat).0,
                out@ == o0 + instant(ts0, t as int, i as nat).1,
            decreases self.tasks.len() - i,
        {
            proof {
                lemma_instant(ts0, t as int, i as nat);
            }
            let task = self.tasks[i];
            if !task.closed && task.due <= t && task.fired < u64::MAX {
                out.push(Firing { task: i, tick: task.fired });
                self.tasks.set(i, after_firing_exec(task));
                proof {
                    assert(out@ =~= o0 + instant(ts0, t as int, (i + 1) as nat).1);
                }
            }
            i += 1;
        }
    }

    /// Runs every firing that has fallen due since the last run, instant by
    /// instant up to the clock's reading, and returns them in order.
    pub fn run_tasks(&mut self) -> (out: Vec<Firing>)
        requires
            old(self).wf(),
        ensures
            final(self).wf(),
            final(self)@.now == old(self)@.now,
            final(self)@.swept == old(self)@.now,
            (final(self)@.tasks, out@) == sweep(
                old(self)@.tasks,
                old(self)@.swept as int,
                old(self)@.now as int,
            ),
            final(self)@.tasks.len() == old(self)@.tasks.len(),
            forall|k: usize|
                k < old(self)@.tasks.len() ==> ticks_of(out@, k) == tick_range(
                    old(self)@.tasks[k as int].fired,
                    #[trigger] final(self)@.tasks[k as int].fired,
                ),
    {
        let n = self.tasks.len();
        let ghost ts0 = self.tasks@;
        let ghost from = self.swept as int;
        let mut out: Vec<Firing> = Vec::new();
        let mut t: u64 = self.swept;
        while t <= self.now
            invariant
                self.wf(),
                self.now == old(self).now,
                self.swept == old(self).swept,
                from == self.swept,
                n == ts0.len(),
                from <= t <= self.now + 1,
                (self.tasks@, out@) == sweep(ts0, from, t - 1),
            decreases self.now + 1 - t,
        {
            self.run_instant(t, &mut out);
            t += 1;
        }
        self.swept = self.now;
        proof {
            lemma_sweep(ts0, from, self.now as int);
        }
        out
    }
}

} // verus!
