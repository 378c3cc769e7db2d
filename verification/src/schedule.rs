//! The worker-pool scheduler's decisions: which task starts next, under an
//! optional parallelism bound, with cooperative monotone shutdown.
//!
//! The surrounding runtime performs the starts and completions it is told
//! to; every decision is taken here.  With bound `n` at most `n` tasks are
//! ever in flight; once shutdown is requested no unstarted task starts,
//! while in-flight tasks still run to their own end and are recorded.

use vstd::prelude::*;

verus! {

/// The scheduler's state over one run: how many tasks the plan holds, how
/// many have started and finished, and whether shutdown was requested.
pub struct Scheduler {
    /// Number of planned tasks; tasks are identified by `0 .. total`.
    pub total: usize,
    /// Cap on concurrently running tasks; `None` runs everything at once.
    pub bound: Option<usize>,
    /// Tasks `0 .. next_unstarted` have started, in order.
    pub next_unstarted: usize,
    /// Started tasks that have not yet reached a terminal state.
    pub in_flight: usize,
    /// Started tasks that reached a terminal state (completed, cancelled
    /// or failed).
    pub finished: usize,
    /// Whether a graceful stop was requested; once true, never false.
    pub shutdown: bool,
}

impl Scheduler {
    /// The scheduler's invariant: bookkeeping is consistent and the
    /// parallelism bound is never exceeded.
    pub open spec fn wf(self) -> bool {
        &&& self.next_unstarted <= self.total
        &&& self.finished + self.in_flight == self.next_unstarted
        &&& (self.bound matches Some(n) ==> self.in_flight <= n)
    }

    /// A fresh scheduler for `total` planned tasks.
    pub fn new(total: usize, bound: Option<usize>) -> (s: Scheduler)
        ensures
            s.wf(),
            s.total == total,
            s.bound == bound,
            s.next_unstarted == 0,
            s.in_flight == 0,
            s.finished == 0,
            !s.shutdown,
    {
        Scheduler { total, bound, next_unstarted: 0, in_flight: 0, finished: 0, shutdown: false }
    }

    /// Decides whether another task may start now, and which.  A task
    /// starts exactly when shutdown has not been requested, unstarted
    /// tasks remain, and a bound leaves a free slot; without a bound no
    /// artificial cap applies.
    pub fn start_next(&mut self) -> (r: Option<usize>)
        requires
            old(self).wf(),
        ensures
            final(self).wf(),
            final(self).total == old(self).total,
            final(self).bound == old(self).bound,
            final(self).finished == old(self).finished,
            final(self).shutdown == old(self).shutdown,
            r matches Some(t) ==> {
                &&& t == old(self).next_unstarted
                &&& !old(self).shutdown
                &&& old(self).next_unstarted < old(self).total
                &&& (old(self).bound matches Some(n) ==> old(self).in_flight < n)
                &&& final(self).next_unstarted == old(self).next_unstarted + 1
                &&& final(self).in_flight == old(self).in_flight + 1
            },
            r is None ==> {
                &&& *final(self) == *old(self)
                &&& (old(self).shutdown || old(self).next_unstarted == old(self).total || (old(
                    self,
                ).bound matches Some(n) && old(self).in_flight >= n))
            },
            old(self).shutdown ==> r is None,
            (final(self).bound matches Some(n) ==> final(self).in_flight <= n),
            scheduler_step(*old(self), SchedulerStep::StartAttempt, *final(self)),
    {
        if self.shutdown {
            return None;
        }
        if self.next_unstarted >= self.total {
            return None;
        }
        match self.bound {
            Some(n) => {
                if self.in_flight >= n {
                    return None;
                }
            },
            None => {},
        }
        let t = self.next_unstarted;
        self.next_unstarted = self.next_unstarted + 1;
        self.in_flight = self.in_flight + 1;
        Some(t)
    }

    /// Records that one in-flight task reached a terminal state, whether
    /// it completed, was cancelled, or failed.
    pub fn on_task_done(&mut self)
        requires
            old(self).wf(),
            old(self).in_flight > 0,
        ensures
            final(self).wf(),
            final(self).total == old(self).total,
            final(self).bound == old(self).bound,
            final(self).next_unstarted == old(self).next_unstarted,
            final(self).shutdown == old(self).shutdown,
            final(self).in_flight == old(self).in_flight - 1,
            final(self).finished == old(self).finished + 1,
            scheduler_step(*old(self), SchedulerStep::TaskDone, *final(self)),
    {
        self.in_flight = self.in_flight - 1;
        self.finished = self.finished + 1;
    }

    /// Records the one-shot shutdown request.  Started work is untouched:
    /// only the flag changes, and it never resets.
    pub fn request_shutdown(&mut self)
        requires
            old(self).wf(),
        ensures
            final(self).wf(),
            final(self).shutdown,
            final(self).total == old(self).total,
            final(self).bound == old(self).bound,
            final(self).next_unstarted == old(self).next_unstarted,
            final(self).in_flight == old(self).in_flight,
            final(self).finished == old(self).finished,
            scheduler_step(*old(self), SchedulerStep::ShutdownRequest, *final(self)),
    {
        self.shutdown = true;
    }

    /// How many planned tasks never started; they are reported
    /// separately, not silently dropped.
    pub fn never_started(&self) -> (r: usize)
        requires
            self.wf(),
        ensures
            r == self.total - self.next_unstarted,
    {
        self.total - self.next_unstarted
    }

    /// Whether every started task has reached a terminal state.
    pub fn all_settled(&self) -> (r: bool)
        requires
            self.wf(),
        ensures
            r == (self.in_flight == 0),
    {
        self.in_flight == 0
    }
}

/// One observable scheduler event.
pub enum SchedulerStep {
    /// The pool asked whether another task may start.
    StartAttempt,
    /// An in-flight task reached a terminal state.
    TaskDone,
    /// The process was asked to stop gracefully.
    ShutdownRequest,
}

/// The scheduler's transition relation: what one step does to the state.
/// Each exec method ensures that it takes exactly such a step.
pub open spec fn scheduler_step(pre: Scheduler, step: SchedulerStep, post: Scheduler) -> bool {
    match step {
        SchedulerStep::StartAttempt => {
            if pre.shutdown || pre.next_unstarted == pre.total || (pre.bound matches Some(n)
                && pre.in_flight >= n) {
                post == pre
            } else {
                &&& post.total == pre.total
                &&& post.bound == pre.bound
                &&& post.next_unstarted == pre.next_unstarted + 1
                &&& post.in_flight == pre.in_flight + 1
                &&& post.finished == pre.finished
                &&& post.shutdown == pre.shutdown
            }
        },
        SchedulerStep::TaskDone => {
            &&& pre.in_flight > 0
            &&& post.total == pre.total
            &&& post.bound == pre.bound
            &&& post.next_unstarted == pre.next_unstarted
            &&& post.in_flight == pre.in_flight - 1
            &&& post.finished == pre.finished + 1
            &&& post.shutdown == pre.shutdown
        },
        SchedulerStep::ShutdownRequest => {
            &&& post.total == pre.total
            &&& post.bound == pre.bound
            &&& post.next_unstarted == pre.next_unstarted
            &&& post.in_flight == pre.in_flight
            &&& post.finished == pre.finished
            &&& post.shutdown == true
        },
    }
}

proof fn lemma_step_preserves(pre: Scheduler, step: SchedulerStep, post: Scheduler)
    requires
        pre.wf(),
        scheduler_step(pre, step, post),
    ensures
        post.wf(),
        pre.shutdown ==> post.shutdown && post.next_unstarted == pre.next_unstarted,
{
}

/// Bounded concurrency and graceful shutdown, over any run of the
/// scheduler: from a well-formed state, every reachable state is
/// well-formed, so under bound `n` at no instant are more than `n` tasks
/// in flight; once shutdown is requested, no unstarted task ever leaves
/// "not started"; and without a bound no artificial cap applies — every
/// start attempt with tasks remaining and no shutdown starts one.
pub proof fn lemma_scheduler_run(trace: Seq<Scheduler>, steps: Seq<SchedulerStep>)
    requires
        trace.len() == steps.len() + 1,
        trace[0].wf(),
        forall|i: int|
            0 <= i < steps.len() ==> #[trigger] scheduler_step(trace[i], steps[i], trace[i + 1]),
    ensures
        forall|i: int| 0 <= i < trace.len() ==> (#[trigger] trace[i]).wf(),
        forall|i: int|
            0 <= i < trace.len() ==> ((#[trigger] trace[i]).bound matches Some(n)
                ==> trace[i].in_flight <= n),
        trace[0].shutdown ==> forall|i: int|
            0 <= i < trace.len() ==> (#[trigger] trace[i]).shutdown && trace[i].next_unstarted
                == trace[0].next_unstarted,
        forall|i: int|
            0 <= i < steps.len() ==> ((#[trigger] steps[i]) == SchedulerStep::StartAttempt
                && trace[i].bound is None && !trace[i].shutdown && trace[i].next_unstarted
                < trace[i].total ==> trace[i + 1].next_unstarted == trace[i].next_unstarted
                + 1),
    decreases steps.len(),
{
    assert forall|i: int|
        0 <= i < steps.len() && (#[trigger] steps[i]) == SchedulerStep::StartAttempt
            && trace[i].bound is None && !trace[i].shutdown && trace[i].next_unstarted
            < trace[i].total implies trace[i + 1].next_unstarted == trace[i].next_unstarted
        + 1 by {
        assert(scheduler_step(trace[i], steps[i], trace[i + 1]));
    }
    if steps.len() > 0 {
        assert(scheduler_step(trace[0int], steps[0int], trace[0int + 1]));
        lemma_step_preserves(trace[0], steps[0], trace[1]);
        let t2 = trace.skip(1);
        let s2 = steps.skip(1);
        assert(forall|i: int| 0 <= i < t2.len() ==> t2[i] == trace[i + 1]);
        assert(forall|i: int| 0 <= i < s2.len() ==> s2[i] == steps[i + 1]);
        lemma_scheduler_run(t2, s2);
        assert(forall|i: int| 1 <= i < trace.len() ==> trace[i] == t2[i - 1]);
    }
}

} // verus!
