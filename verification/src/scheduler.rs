//! The state machines that drive a run: the thread that wins the run lock
//! runs the hooks before all tests, polls the shared list of submitted tests
//! and spawns each one, waits for all of them, then runs the hooks after all
//! tests; each spawned test runs the hooks around it.
//!
//! Each machine decides the next step from its state; the caller performs the
//! step (a sleep, an await, a spawn) and comes back for the next one.

use vstd::prelude::*;

verus! {

/// After this many polls in a row that found no submitted test, the poller
/// stops.
pub const MAX_IDLE_POLLS: u32 = 2;

/// The pause between two polls, after the first one.
pub const POLL_INTERVAL_MS: u64 = 500;

/// The poller that hands submitted tests to the runtime.
#[derive(Clone, Copy, Debug, PartialEq, Eq, Structural)]
pub struct Poller {
    /// How long to sleep before the next poll.
    pub wait_ms: u64,
    /// How many polls in a row found nothing.
    pub idle_polls: u32,
    /// Whether to poll again after a poll (see `args::should_loop`).
    pub looping: bool,
}

impl Poller {
    /// The count of idle polls never passes the limit.
    pub open spec fn wf(self) -> bool {
        self.idle_polls <= MAX_IDLE_POLLS
    }

    /// The poller may poll again after its sleep.
    pub open spec fn can_drain(self) -> bool {
        self.idle_polls < MAX_IDLE_POLLS
    }

    /// The poller after a poll that took `drained` tests.
    pub open spec fn after_drain(self, drained: nat) -> Poller {
        Poller {
            wait_ms: if self.looping {
                POLL_INTERVAL_MS
            } else {
                self.wait_ms
            },
            idle_polls: if drained == 0 {
                (self.idle_polls + 1) as u32
            } else {
                0
            },
            looping: self.looping,
        }
    }

    /// The poller before its first poll.
    pub open spec fn initial(looping: bool) -> Poller {
        Poller { wait_ms: 0, idle_polls: 0, looping }
    }

    /// A poller that has not polled yet; its first sleep is zero.
    pub fn new(looping: bool) -> (p: Poller)
        ensures
            p == Poller::initial(looping),
            p.wf(),
    {
        Poller { wait_ms: 0, idle_polls: 0, looping }
    }

    /// Whether the poller, after its sleep, polls again: not once
    /// `MAX_IDLE_POLLS` polls in a row have found nothing.
    pub fn may_drain(&self) -> (r: bool)
        ensures
            r == self.can_drain(),
    {
        self.idle_polls < MAX_IDLE_POLLS
    }

    /// Records a poll that took `drained` tests, all of which the caller
    /// spawns. Returns whether to sleep and poll again; when it does, the
    /// next sleep is `POLL_INTERVAL_MS`.
    pub fn record_drain(&mut self, drained: usize) -> (keep_polling: bool)
        requires
            old(self).wf(),
            old(self).can_drain(),
        ensures
            *final(self) == old(self).after_drain(drained as nat),
            final(self).wf(),
            keep_polling == old(self).looping,
    {
        if drained == 0 {
            self.idle_polls = self.idle_polls + 1;
        } else {
            self.idle_polls = 0;
        }
        if self.looping {
            self.wait_ms = POLL_INTERVAL_MS;
        }
        self.looping
    }
}

/// The poller after the polls whose drained counts are `counts`, in order.
pub open spec fn after_drains(p: Poller, counts: Seq<nat>) -> Poller
    decreases counts.len(),
{
    if counts.len() == 0 {
        p
    } else {
        after_drains(p, counts.drop_last()).after_drain(counts.last())
    }
}

/// How many polls at the end of `counts` found nothing.
pub open spec fn trailing_empty(counts: Seq<nat>) -> nat
    decreases counts.len(),
{
    if counts.len() == 0 {
        0
    } else if counts.last() == 0 {
        1 + trailing_empty(counts.drop_last())
    } else {
        0
    }
}

/// A history of polls that a looping poller can have made: before each poll,
/// fewer than `MAX_IDLE_POLLS` polls in a row had found nothing.
pub open spec fn feasible_history(counts: Seq<nat>) -> bool {
    forall|k: int| 0 <= k < counts.len() ==> trailing_empty(#[trigger] counts.take(k)) < MAX_IDLE_POLLS
}

/// A looping poller counts the empty polls at the end of its history, sleeps
/// zero before its first poll and `POLL_INTERVAL_MS` before every later one,
/// and stops exactly when its last `MAX_IDLE_POLLS` polls all found nothing.
pub proof fn law_looping_poller_stops_after_idle_polls(counts: Seq<nat>)
    requires
        feasible_history(counts),
    ensures
        after_drains(Poller::initial(true), counts).idle_polls == trailing_empty(counts),
        after_drains(Poller::initial(true), counts).wait_ms == if counts.len() == 0 {
            0
        } else {
            POLL_INTERVAL_MS
        },
        after_drains(Poller::initial(true), counts).looping,
        after_drains(Poller::initial(true), counts).wf(),
        after_drains(Poller::initial(true), counts).can_drain() <==> trailing_empty(counts)
            < MAX_IDLE_POLLS,
    decreases counts.len(),
{
    if counts.len() > 0 {
        let prev = counts.drop_last();
        assert forall|k: int| 0 <= k < prev.len() implies trailing_empty(#[trigger] prev.take(k))
            < MAX_IDLE_POLLS by {
            assert(prev.take(k) =~= counts.take(k));
        }
        law_looping_poller_stops_after_idle_polls(prev);
        assert(counts.take(prev.len() as int) =~= prev);
        assert(trailing_empty(counts.take(prev.len() as int)) < MAX_IDLE_POLLS);
    }
}

/// A poller that does not loop polls once: it may poll first, and after that
/// poll it stops, whatever the poll found.
pub proof fn law_non_looping_poller_polls_once(drained: nat)
    ensures
        Poller::initial(false).can_drain(),
        !Poller::initial(false).after_drain(drained).looping,
{
}

/// A step of the thread that drives a run.
#[derive(Clone, Copy, Debug, PartialEq, Eq, Structural)]
pub enum RunStep {
    /// Run the hook at this index of the hooks before all tests, to its end.
    BeforeAll(usize),
    /// Start the poller that spawns the submitted tests.
    StartPolling,
    /// Wait until the poller and every test that it spawned have finished.
    AwaitTests,
    /// Run the hook at this index of the hooks after all tests, to its end.
    AfterAll(usize),
    /// Release the run lock.
    Release,
}

/// Where the driving thread stands.
#[derive(Clone, Copy, Debug, PartialEq, Eq, Structural)]
pub enum RunStage {
    BeforeAll(usize),
    AwaitTests,
    AfterAll(usize),
    Done,
}

/// The state of the thread that drives a run: how many hooks run before and
/// after all tests, and where it stands.
#[derive(Clone, Copy, Debug, PartialEq, Eq, Structural)]
pub struct RunDriver {
    pub before_all: usize,
    pub after_all: usize,
    pub stage: RunStage,
}

/// The steps that run the hooks before all tests from index `from` on.
pub open spec fn before_all_steps(from: int, count: int) -> Seq<RunStep> {
    Seq::new((count - from) as nat, |k: int| RunStep::BeforeAll((from + k) as usize))
}

/// The steps that run the hooks after all tests from index `from` on.
pub open spec fn after_all_steps(from: int, count: int) -> Seq<RunStep> {
    Seq::new((count - from) as nat, |k: int| RunStep::AfterAll((from + k) as usize))
}

/// The steps of a whole run: every hook before all tests in order, then the
/// tests, then every hook after all tests in order, then the release of the
/// lock.
pub open spec fn run_trace(before_all: usize, after_all: usize) -> Seq<RunStep> {
    before_all_steps(0, before_all as int) + seq![RunStep::StartPolling, RunStep::AwaitTests]
        + after_all_steps(0, after_all as int) + seq![RunStep::Release]
}

impl RunDriver {
    /// A hook index never passes its count.
    pub open spec fn wf(self) -> bool {
        match self.stage {
            RunStage::BeforeAll(i) => i <= self.before_all,
            RunStage::AfterAll(i) => i <= self.after_all,
            _ => true,
        }
    }

    /// The steps still to come.
    pub open spec fn remaining(self) -> Seq<RunStep> {
        let tail = after_all_steps(0, self.after_all as int) + seq![RunStep::Release];
        match self.stage {
            RunStage::BeforeAll(i) => before_all_steps(i as int, self.before_all as int) + seq![
                RunStep::StartPolling,
                RunStep::AwaitTests,
            ] + tail,
            RunStage::AwaitTests => seq![RunStep::AwaitTests] + tail,
            RunStage::AfterAll(i) => after_all_steps(i as int, self.after_all as int) + seq![
                RunStep::Release,
            ],
            RunStage::Done => Seq::empty(),
        }
    }

    /// A driver that has taken no step yet.
    pub fn new(before_all: usize, after_all: usize) -> (d: RunDriver)
        ensures
            d.wf(),
            d.before_all == before_all,
            d.after_all == after_all,
            d.remaining() == run_trace(before_all, after_all),
    {
        RunDriver { before_all, after_all, stage: RunStage::BeforeAll(0) }
    }

    /// The next step of the run, or `None` once the lock is released. Each
    /// step handed out is the first of the remaining ones.
    pub fn next_step(&mut self) -> (r: Option<RunStep>)
        requires
            old(self).wf(),
        ensures
            final(self).wf(),
            final(self).before_all == old(self).before_all,
            final(self).after_all == old(self).after_all,
            match r {
                Some(step) => old(self).remaining() == seq![step] + final(self).remaining(),
                None => old(self).remaining().len() == 0 && *final(self) == *old(self),
            },
    {
        let ghost before = old(self).remaining();
        match self.stage {
            RunStage::BeforeAll(i) => {
                if i < self.before_all {
                    self.stage = RunStage::BeforeAll(i + 1);
                    proof {
                        assert(before_all_steps(i as int, self.before_all as int) =~= seq![
                            RunStep::BeforeAll(i),
                        ] + before_all_steps(i + 1, self.before_all as int));
                        assert(before =~= seq![RunStep::BeforeAll(i)] + self.remaining());
                    }
                    Some(RunStep::BeforeAll(i))
                } else {
                    self.stage = RunStage::AwaitTests;
                    proof {
                        assert(before_all_steps(i as int, self.before_all as int) =~= Seq::empty());
                        assert(before =~= seq![RunStep::StartPolling] + self.remaining());
                    }
                    Some(RunStep::StartPolling)
                }
            },
            RunStage::AwaitTests => {
                self.stage = RunStage::AfterAll(0);
                proof {
                    assert(before =~= seq![RunStep::AwaitTests] + self.remaining());
                }
                Some(RunStep::AwaitTests)
            },
            RunStage::AfterAll(i) => {
                if i < self.after_all {
                    self.stage = RunStage::AfterAll(i + 1);
                    proof {
                        assert(after_all_steps(i as int, self.after_all as int) =~= seq![
                            RunStep::AfterAll(i),
                        ] + after_all_steps(i + 1, self.after_all as int));
                        assert(before =~= seq![RunStep::AfterAll(i)] + self.remaining());
                    }
                    Some(RunStep::AfterAll(i))
                } else {
                    self.stage = RunStage::Done;
                    proof {
                        assert(after_all_steps(i as int, self.after_all as int) =~= Seq::empty());
                        assert(before =~= seq![RunStep::Release] + self.remaining());
                    }
                    Some(RunStep::Release)
                }
            },
            RunStage::Done => None,
        }
    }
}

/// In a run, every hook before all tests runs, in order, before the poller
/// starts; every test is awaited before any hook after all tests runs; those
/// run in order, and the lock is released last.
pub proof fn law_run_hooks_bracket_the_tests(before_all: usize, after_all: usize)
    ensures
        run_trace(before_all, after_all).len() == before_all + after_all + 3,
        forall|k: int|
            0 <= k < before_all ==> #[trigger] run_trace(before_all, after_all)[k]
                == RunStep::BeforeAll(k as usize),
        run_trace(before_all, after_all)[before_all as int] == RunStep::StartPolling,
        run_trace(before_all, after_all)[before_all + 1] == RunStep::AwaitTests,
        forall|k: int|
            0 <= k < after_all ==> #[trigger] run_trace(before_all, after_all)[before_all + 2 + k]
                == RunStep::AfterAll(k as usize),
        run_trace(before_all, after_all)[before_all + after_all + 2] == RunStep::Release,
{
}

/// How a submitted test runs.
#[derive(Clone, Copy, Debug, PartialEq, Eq, Structural)]
pub enum TestKind {
    /// A plain test, run as a blocking closure on the blocking pool.
    Blocking,
    /// An `async` test, run as a task of its own.
    Future,
}

/// A step of the task that runs one submitted test.
#[derive(Clone, Copy, Debug, PartialEq, Eq, Structural)]
pub enum TaskStep {
    /// Run the hook at this index of the hooks before each test, to its end.
    BeforeEach(usize),
    /// Run the test and keep its result.
    Run(TestKind),
    /// Tell the driving thread that the test has run.
    SignalDone,
    /// Run the hook at this index of the hooks after each test, to its end.
    AfterEach(usize),
    /// Hand the kept result back to the test thread that submitted it.
    Report,
}

/// Where a test's task stands.
#[derive(Clone, Copy, Debug, PartialEq, Eq, Structural)]
pub enum TaskStage {
    BeforeEach(usize),
    SignalDone,
    AfterEach(usize),
    Done,
}

/// The state of the task that runs one submitted test.
#[derive(Clone, Copy, Debug, PartialEq, Eq, Structural)]
pub struct TestTask {
    pub before_each: usize,
    pub after_each: usize,
    pub kind: TestKind,
    pub stage: TaskStage,
}

/// The steps that run the hooks before each test from index `from` on.
pub open spec fn before_each_steps(from: int, count: int) -> Seq<TaskStep> {
    Seq::new((count - from) as nat, |k: int| TaskStep::BeforeEach((from + k) as usize))
}

/// The steps that run the hooks after each test from index `from` on.
pub open spec fn after_each_steps(from: int, count: int) -> Seq<TaskStep> {
    Seq::new((count - from) as nat, |k: int| TaskStep::AfterEach((from + k) as usize))
}

/// The steps of one test's task: every hook before each test in order, the
/// test, the signal, every hook after each test in order, the report.
pub open spec fn task_trace(before_each: usize, after_each: usize, kind: TestKind) -> Seq<
    TaskStep,
> {
    before_each_steps(0, before_each as int) + seq![TaskStep::Run(kind), TaskStep::SignalDone]
        + after_each_steps(0, after_each as int) + seq![TaskStep::Report]
}

impl TestTask {
    /// A hook index never passes its count.
    pub open spec fn wf(self) -> bool {
        match self.stage {
            TaskStage::BeforeEach(i) => i <= self.before_each,
            TaskStage::AfterEach(i) => i <= self.after_each,
            _ => true,
        }
    }

    /// The steps still to come.
    pub open spec fn remaining(self) -> Seq<TaskStep> {
        let tail = after_each_steps(0, self.after_each as int) + seq![TaskStep::Report];
        match self.stage {
            TaskStage::BeforeEach(i) => before_each_steps(i as int, self.before_each as int)
                + seq![TaskStep::Run(self.kind), TaskStep::SignalDone] + tail,
            TaskStage::SignalDone => seq![TaskStep::SignalDone] + tail,
            TaskStage::AfterEach(i) => after_each_steps(i as int, self.after_each as int) + seq![
                TaskStep::Report,
            ],
            TaskStage::Done => Seq::empty(),
        }
    }

    /// The task of a test that has taken no step yet; a test that carries a
    /// blocking closure runs it, any other runs its future.
    pub fn new(before_each: usize, after_each: usize, has_blocking_fn: bool) -> (t: TestTask)
        ensures
            t.wf(),
            t.before_each == before_each,
            t.after_each == after_each,
            t.kind == if has_blocking_fn {
                TestKind::Blocking
            } else {
                TestKind::Future
            },
            t.remaining() == task_trace(before_each, after_each, t.kind),
    {
        let kind = if has_blocking_fn {
            TestKind::Blocking
        } else {
            TestKind::Future
        };
        TestTask { before_each, after_each, kind, stage: TaskStage::BeforeEach(0) }
    }

    /// The next step of the task, or `None` once the result is reported. Each
    /// step handed out is the first of the remaining ones.
    pub fn next_step(&mut self) -> (r: Option<TaskStep>)
        requires
            old(self).wf(),
        ensures
            final(self).wf(),
            final(self).before_each == old(self).before_each,
            final(self).after_each == old(self).after_each,
            final(self).kind == old(self).kind,
            match r {
                Some(step) => old(self).remaining() == seq![step] + final(self).remaining(),
                None => old(self).remaining().len() == 0 && *final(self) == *old(self),
            },
    {
        let ghost before = old(self).remaining();
        match self.stage {
            TaskStage::BeforeEach(i) => {
                if i < self.before_each {
                    self.stage = TaskStage::BeforeEach(i + 1);
                    proof {
                        assert(before_each_steps(i as int, self.before_each as int) =~= seq![
                            TaskStep::BeforeEach(i),
                        ] + before_each_steps(i + 1, self.before_each as int));
                        assert(before =~= seq![TaskStep::BeforeEach(i)] + self.remaining());
                    }
                    Some(TaskStep::BeforeEach(i))
                } else {
                    self.stage = TaskStage::SignalDone;
                    proof {
                        assert(before_each_steps(i as int, self.before_each as int)
                            =~= Seq::empty());
                        assert(before =~= seq![TaskStep::Run(self.kind)] + self.remaining());
                    }
                    Some(TaskStep::Run(self.kind))
                }
            },
            TaskStage::SignalDone => {
                self.stage = TaskStage::AfterEach(0);
                proof {
                    assert(before =~= seq![TaskStep::SignalDone] + self.remaining());
                }
                Some(TaskStep::SignalDone)
            },
            TaskStage::AfterEach(i) => {
                if i < self.after_each {
                    self.stage = TaskStage::AfterEach(i + 1);
                    proof {
                        assert(after_each_steps(i as int, self.after_each as int) =~= seq![
                            TaskStep::AfterEach(i),
                        ] + after_each_steps(i + 1, self.after_each as int));
                        assert(before =~= seq![TaskStep::AfterEach(i)] + self.remaining());
                    }
                    Some(TaskStep::AfterEach(i))
                } else {
                    self.stage = TaskStage::Done;
                    proof {
                        assert(after_each_steps(i as int, self.after_each as int)
                            =~= Seq::empty());
                        assert(before =~= seq![TaskStep::Report] + self.remaining());
                    }
                    Some(TaskStep::Report)
                }
            },
            TaskStage::Done => None,
        }
    }
}

/// In a test's task, every hook before each test runs, in order, before the
/// test; the test's end is signalled before any hook after each test runs;
/// those run in order, and the result is reported last.
pub proof fn law_each_hooks_bracket_the_test(
    before_each: usize,
    after_each: usize,
    kind: TestKind,
)
    ensures
        task_trace(before_each, after_each, kind).len() == before_each + after_each + 3,
        forall|k: int|
            0 <= k < before_each ==> #[trigger] task_trace(before_each, after_each, kind)[k]
                == TaskStep::BeforeEach(k as usize),
        task_trace(before_each, after_each, kind)[before_each as int] == TaskStep::Run(kind),
        task_trace(before_each, after_each, kind)[before_each + 1] == TaskStep::SignalDone,
        forall|k: int|
            0 <= k < after_each ==> #[trigger] task_trace(before_each, after_each, kind)[before_each
                + 2 + k] == TaskStep::AfterEach(k as usize),
        task_trace(before_each, after_each, kind)[before_each + after_each + 2]
            == TaskStep::Report,
{
}

} // verus!
