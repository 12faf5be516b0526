//! Cyclic executive: a fixed table of periodic tasks driven by an external
//! tick source.
//!
//! Hard-real-time work (motor commutation) lives directly in interrupt
//! handlers, not here - this only schedules the slower work (telemetry, the
//! differential control loop, fault polling).
use vstd::prelude::*;

verus! {

/// A task run every `period_ticks` ticks; `run` receives the tick it fired
/// on. A period of 0 disables the task.
pub struct Task<F> {
    pub period_ticks: u32,
    pub run: F,
}

/// Whether a task with `period_ticks` fires on `tick`.
pub open spec fn due(period_ticks: u32, tick: u64) -> bool {
    period_ticks != 0 && tick % (period_ticks as u64) == 0
}

/// Whether a task with `period_ticks` fires on `tick`.
pub fn is_due(period_ticks: u32, tick: u64) -> (r: bool)
    ensures
        r == due(period_ticks, tick),
{
    period_ticks != 0 && tick % (period_ticks as u64) == 0
}

/// The runs one tick makes of the first `k` tasks: `(index, tick)` for each
/// task due on `tick`, in table order.
pub open spec fn due_runs(periods: Seq<u32>, tick: u64, k: nat) -> Seq<(int, u64)>
    decreases k,
{
    if k == 0 {
        Seq::empty()
    } else {
        let before = due_runs(periods, tick, (k - 1) as nat);
        if due(periods[k - 1], tick) {
            before.push(((k - 1) as int, tick))
        } else {
            before
        }
    }
}

/// Fixed-size table of `N` tasks, advanced one tick at a time by an
/// external tick source.
pub struct Scheduler<F, const N: usize> {
    tasks: [Task<F>; N],
    tick: u64,
    /// Every run made so far: the task's index and the tick it ran with.
    runs: Ghost<Seq<(int, u64)>>,
}

impl<F: Fn(u64), const N: usize> Scheduler<F, N> {
    pub closed spec fn tick_count(&self) -> u64 {
        self.tick
    }

    /// Every run made so far, oldest first: the task's index and the tick it
    /// was handed.
    pub closed spec fn runs(&self) -> Seq<(int, u64)> {
        self.runs@
    }

    /// The run function of task `k`.
    pub closed spec fn task_run(&self, k: int) -> F {
        self.tasks@[k].run
    }

    pub closed spec fn periods(&self) -> Seq<u32> {
        Seq::new(N as nat, |i: int| self.tasks@[i].period_ticks)
    }

    /// Every task accepts every tick.
    pub closed spec fn runnable(&self) -> bool {
        forall|i: int, t: u64| 0 <= i < N ==> call_requires(self.tasks@[i].run, (t,))
    }

    pub fn new(tasks: [Task<F>; N]) -> (r: Self)
        ensures
            r.tick_count() == 0,
            r.runs() == Seq::<(int, u64)>::empty(),
            r.periods() == Seq::new(N as nat, |i: int| tasks@[i].period_ticks),
            forall|k: int| 0 <= k < N ==> #[trigger] r.task_run(k) == tasks@[k].run,
            r.runnable() <==> (forall|i: int, t: u64| 0 <= i < N ==> call_requires(tasks@[i].run, (t,))),
    {
        Scheduler { tasks, tick: 0, runs: Ghost(Seq::empty()) }
    }

    /// Advance by one tick, running (in table order) every task that is
    /// `due` on the new tick count, with that count.
    pub fn tick(&mut self)
        requires
            old(self).runnable(),
            old(self).tick_count() < u64::MAX,
        ensures
            final(self).runnable(),
            final(self).tick_count() == old(self).tick_count() + 1,
            final(self).periods() == old(self).periods(),
            forall|k: int| 0 <= k < N ==> #[trigger] final(self).task_run(k) == old(self).task_run(k),
            forall|k: int|
                0 <= k < N && due(old(self).periods()[k], final(self).tick_count()) ==> call_ensures(
                    #[trigger] final(self).task_run(k),
                    (final(self).tick_count(),),
                    (),
                ),
            final(self).runs() == old(self).runs() + due_runs(
                old(self).periods(),
                final(self).tick_count(),
                N as nat,
            ),
    {
        let ghost before = self.runs@;
        let ghost periods = self.periods();
        let ghost runs_before = Seq::new(N as nat, |j: int| self.tasks@[j].run);
        self.tick = self.tick + 1;
        let now = self.tick;
        let mut i: usize = 0;
        assert(before + due_runs(periods, now, 0) =~= before);
        while i < N
            invariant
                i <= N,
                self.tick == now,
                forall|k: int, t: u64| 0 <= k < N ==> call_requires(self.tasks@[k].run, (t,)),
                periods == Seq::new(N as nat, |j: int| self.tasks@[j].period_ticks),
                self.runs@ == before + due_runs(periods, now, i as nat),
                forall|k: int| 0 <= k < N ==> #[trigger] self.tasks@[k].run == runs_before[k],
                forall|k: int|
                    0 <= k < i && due(periods[k], now) ==> call_ensures(
                        #[trigger] self.tasks@[k].run,
                        (now,),
                        (),
                    ),
            decreases N - i,
        {
            let ghost prefix = due_runs(periods, now, i as nat);
            assert(periods[i as int] == self.tasks@[i as int].period_ticks);
            if is_due(self.tasks[i].period_ticks, now) {
                (self.tasks[i].run)(now);
                proof {
                    self.runs@ = self.runs@.push((i as int, now));
                    assert(before + prefix.push((i as int, now)) =~= (before + prefix).push((i as int, now)));
                }
            }
            i = i + 1;
        }
    }

    pub fn current_tick(&self) -> (r: u64)
        ensures
            r == self.tick_count(),
    {
        self.tick
    }
}

/// A task runs on a tick exactly when its period divides the tick (a zero
/// period never), whatever else is in the table, and only with that tick.
pub proof fn lemma_runs_exactly_the_due_tasks(periods: Seq<u32>, tick: u64, k: nat, i: int, t: u64)
    requires
        k <= periods.len(),
    ensures
        due_runs(periods, tick, k).contains((i, t)) <==> (0 <= i < k && t == tick && due(periods[i], tick)),
    decreases k,
{
    if k > 0 {
        lemma_runs_exactly_the_due_tasks(periods, tick, (k - 1) as nat, i, t);
        let before = due_runs(periods, tick, (k - 1) as nat);
        if due(periods[k - 1], tick) {
            let after = before.push(((k - 1) as int, tick));
            if after.contains((i, t)) {
                let w = choose|w: int| 0 <= w < after.len() && after[w] == (i, t);
                if w < before.len() {
                    assert(before[w] == (i, t));
                }
            }
            if before.contains((i, t)) {
                let w = choose|w: int| 0 <= w < before.len() && before[w] == (i, t);
                assert(after[w] == (i, t));
            }
            if i == k - 1 && t == tick {
                assert(after[before.len() as int] == (i, t));
            }
        }
    }
}

} // verus!
