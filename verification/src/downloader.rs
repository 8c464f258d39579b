//! Downloader core: the scheduler of one bounded-concurrency batch.
//!
//! A batch treats its work list as independent tasks. At most `cap` tasks
//! are in flight at once; a task's terminal state is reported back as a
//! [`TaskOutcome`], and one task's failure never blocks, cancels or aborts
//! any other task. The surrounding program performs the actual fetches and
//! writes; it drives this state machine, which decides admission and keeps
//! the aggregate counts, so every schedule it allows is verified here.

use vstd::prelude::*;

verus! {

/// The terminal state of one download task: its bytes were fetched and
/// written, or it failed while fetching, or it failed while writing. There
/// is no retry: a task reaches exactly one terminal state.
#[derive(Clone, Copy, Debug, PartialEq, Eq, Structural)]
pub enum TaskOutcome {
    Written,
    FetchFailed,
    WriteFailed,
}

/// The terminal value of one batch run: how many tasks were attempted and
/// how many of them completed their write without error.
#[derive(Clone, Copy, Debug, PartialEq, Eq, Structural)]
pub struct BatchResult {
    pub attempted: usize,
    pub succeeded: usize,
}

/// How many outcomes of a completion sequence are successful writes.
pub open spec fn count_written(s: Seq<TaskOutcome>) -> nat
    decreases s.len(),
{
    if s.len() == 0 {
        0
    } else {
        count_written(s.drop_last()) + (if s.last() is Written {
            1nat
        } else {
            0nat
        })
    }
}

/// No completion sequence holds more successes than outcomes.
pub proof fn lemma_count_written_le_len(s: Seq<TaskOutcome>)
    ensures
        count_written(s) <= s.len(),
    decreases s.len(),
{
    if s.len() > 0 {
        lemma_count_written_le_len(s.drop_last());
    }
}

/// A batch with no failures succeeds on every task.
pub proof fn lemma_count_all_written(s: Seq<TaskOutcome>)
    requires
        forall|i: int| 0 <= i < s.len() ==> s[i] is Written,
    ensures
        count_written(s) == s.len(),
    decreases s.len(),
{
    if s.len() > 0 {
        assert(forall|i: int|
            0 <= i < s.drop_last().len() ==> #[trigger] s.drop_last()[i] == s[i]);
        lemma_count_all_written(s.drop_last());
    }
}

/// Failure isolation: when exactly one task of a completed batch failed,
/// every other task still reached its own terminal state successfully, so
/// the batch succeeded on all tasks but that one.
pub proof fn lemma_single_failure_isolation(s: Seq<TaskOutcome>, j: int)
    requires
        0 <= j < s.len(),
        !(s[j] is Written),
        forall|i: int| 0 <= i < s.len() && i != j ==> s[i] is Written,
    ensures
        count_written(s) == s.len() - 1,
    decreases s.len(),
{
    assert(forall|i: int| 0 <= i < s.drop_last().len() ==> #[trigger] s.drop_last()[i] == s[i]);
    if j == s.len() - 1 {
        lemma_count_all_written(s.drop_last());
    } else {
        lemma_single_failure_isolation(s.drop_last(), j);
    }
}

/// Scheduler state of one batch: `total` tasks to run under concurrency
/// bound `cap`, of which `admitted` have entered flight and `completed`
/// have reached a terminal state. Tasks are admitted in work-list order;
/// completions arrive in any order and are recorded in `outcomes`.
pub struct Batch {
    pub total: usize,
    pub cap: usize,
    pub admitted: usize,
    pub completed: usize,
    pub succeeded: usize,
    pub outcomes: Ghost<Seq<TaskOutcome>>,
}

impl Batch {
    /// How many tasks are in the fetching-or-writing state.
    pub open spec fn in_flight(&self) -> int {
        self.admitted - self.completed
    }

    /// The scheduler invariant: admission never outruns the work list,
    /// completion never outruns admission, at most `cap` tasks are in
    /// flight, and the success count is exactly the number of successful
    /// outcomes recorded so far.
    pub open spec fn wf(&self) -> bool {
        &&& self.cap >= 1
        &&& self.admitted <= self.total
        &&& self.completed <= self.admitted
        &&& self.admitted - self.completed <= self.cap
        &&& self.outcomes@.len() == self.completed
        &&& self.succeeded == count_written(self.outcomes@)
    }

    /// Starts a batch of `total` independent tasks under concurrency bound
    /// `cap`. Nothing is admitted yet; an empty batch is already done.
    pub fn new(total: usize, cap: usize) -> (b: Batch)
        requires
            cap >= 1,
        ensures
            b.wf(),
            b.total == total,
            b.cap == cap,
            b.admitted == 0,
            b.completed == 0,
            b.succeeded == 0,
            b.outcomes@ == Seq::<TaskOutcome>::empty(),
    {
        Batch {
            total,
            cap,
            admitted: 0,
            completed: 0,
            succeeded: 0,
            outcomes: Ghost(Seq::empty()),
        }
    }

    /// Whether another task may enter flight: work remains and a slot under
    /// the concurrency bound is free.
    pub fn can_launch(&self) -> (r: bool)
        requires
            self.wf(),
        ensures
            r == (self.admitted < self.total && self.in_flight() < self.cap),
    {
        self.admitted < self.total && self.admitted - self.completed < self.cap
    }

    /// Launches the next task into flight and returns its index in the work
    /// list. The concurrency bound still holds afterwards.
    pub fn launch(&mut self) -> (idx: usize)
        requires
            old(self).wf(),
            old(self).admitted < old(self).total,
            old(self).in_flight() < old(self).cap,
        ensures
            final(self).wf(),
            idx == old(self).admitted,
            final(self).admitted == old(self).admitted + 1,
            final(self).completed == old(self).completed,
            final(self).succeeded == old(self).succeeded,
            final(self).total == old(self).total,
            final(self).cap == old(self).cap,
            final(self).outcomes@ == old(self).outcomes@,
            final(self).in_flight() <= final(self).cap,
    {
        let idx = self.admitted;
        self.admitted = self.admitted + 1;
        idx
    }

    /// Records the terminal state of one in-flight task, freeing its slot.
    /// A failed outcome only leaves the success count unchanged: it never
    /// touches any other task and never aborts the batch.
    pub fn complete(&mut self, outcome: TaskOutcome)
        requires
            old(self).wf(),
            old(self).in_flight() > 0,
        ensures
            final(self).wf(),
            final(self).admitted == old(self).admitted,
            final(self).total == old(self).total,
            final(self).cap == old(self).cap,
            final(self).completed == old(self).completed + 1,
            final(self).outcomes@ == old(self).outcomes@.push(outcome),
            final(self).succeeded == old(self).succeeded + (if outcome is Written {
                1int
            } else {
                0int
            }),
    {
        proof {
            lemma_count_written_le_len(self.outcomes@);
            assert(self.outcomes@.push(outcome).drop_last() =~= self.outcomes@);
        }
        self.completed = self.completed + 1;
        if matches!(outcome, TaskOutcome::Written) {
            self.succeeded = self.succeeded + 1;
        }
        self.outcomes = Ghost(self.outcomes@.push(outcome));
    }

    /// Whether every task has reached a terminal state.
    pub fn is_done(&self) -> (r: bool)
        ensures
            r == (self.completed == self.total),
    {
        self.completed == self.total
    }

    /// The terminal value of the run: the attempt count equals the size of
    /// the work list the batch was started with, the success count is
    /// exactly the number of successfully written tasks, and it never
    /// exceeds the attempt count.
    pub fn result(&self) -> (r: BatchResult)
        requires
            self.wf(),
            self.completed == self.total,
        ensures
            r.attempted == self.total,
            r.succeeded == count_written(self.outcomes@),
            r.succeeded <= r.attempted,
    {
        proof {
            lemma_count_written_le_len(self.outcomes@);
        }
        BatchResult { attempted: self.total, succeeded: self.succeeded }
    }
}

/// Bounded concurrency: a well-formed batch never holds more tasks in the
/// fetching-or-writing state than its concurrency bound, whatever the bound
/// and however many tasks remain.
pub proof fn lemma_in_flight_bounded(b: &Batch)
    requires
        b.wf(),
    ensures
        0 <= b.in_flight() <= b.cap,
{
}

/// Aggregate bounds of every scheduler state: the success count never
/// exceeds the completion count, which never exceeds the size of the work
/// list. At the terminal state, where completion has reached the whole work
/// list, the reported result therefore carries `attempted` equal to the
/// work-list size and `succeeded <= attempted`.
pub proof fn lemma_result_bounds(b: &Batch)
    requires
        b.wf(),
    ensures
        b.succeeded <= b.completed <= b.total,
{
    lemma_count_written_le_len(b.outcomes@);
}

} // verus!
