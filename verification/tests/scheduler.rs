use testme::scheduler::{
    Poller, RunDriver, RunStep, TaskStep, TestKind, TestTask, MAX_IDLE_POLLS, POLL_INTERVAL_MS,
};

#[test]
fn first_poll_has_no_wait() {
    let p = Poller::new(true);
    assert_eq!(p.wait_ms, 0);
    assert!(p.may_drain());
    assert_eq!(MAX_IDLE_POLLS, 2);
    assert_eq!(POLL_INTERVAL_MS, 500);
}

#[test]
fn looping_poller_stops_after_two_empty_polls() {
    let mut p = Poller::new(true);
    assert!(p.record_drain(3));
    assert_eq!(p.wait_ms, 500);
    assert!(p.may_drain());
    assert!(p.record_drain(0));
    assert!(p.may_drain());
    assert!(p.record_drain(1));
    assert_eq!(p.idle_polls, 0);
    assert!(p.record_drain(0));
    assert!(p.may_drain());
    assert!(p.record_drain(0));
    assert_eq!(p.idle_polls, 2);
    assert!(!p.may_drain());
}

#[test]
fn non_looping_poller_polls_once() {
    let mut p = Poller::new(false);
    assert!(p.may_drain());
    assert!(!p.record_drain(5));
    assert_eq!(p.wait_ms, 0);
    let mut q = Poller::new(false);
    assert!(!q.record_drain(0));
}

fn run_steps(before_all: usize, after_all: usize) -> Vec<RunStep> {
    let mut d = RunDriver::new(before_all, after_all);
    let mut out = Vec::new();
    while let Some(step) = d.next_step() {
        out.push(step);
    }
    assert_eq!(d.next_step(), None);
    out
}

#[test]
fn run_brackets_the_tests_with_the_all_hooks() {
    assert_eq!(
        run_steps(2, 1),
        vec![
            RunStep::BeforeAll(0),
            RunStep::BeforeAll(1),
            RunStep::StartPolling,
            RunStep::AwaitTests,
            RunStep::AfterAll(0),
            RunStep::Release,
        ]
    );
    assert_eq!(
        run_steps(0, 0),
        vec![RunStep::StartPolling, RunStep::AwaitTests, RunStep::Release]
    );
}

fn task_steps(before_each: usize, after_each: usize, blocking: bool) -> Vec<TaskStep> {
    let mut t = TestTask::new(before_each, after_each, blocking);
    let mut out = Vec::new();
    while let Some(step) = t.next_step() {
        out.push(step);
    }
    out
}

#[test]
fn test_task_brackets_the_test_with_the_each_hooks() {
    assert_eq!(
        task_steps(1, 2, true),
        vec![
            TaskStep::BeforeEach(0),
            TaskStep::Run(TestKind::Blocking),
            TaskStep::SignalDone,
            TaskStep::AfterEach(0),
            TaskStep::AfterEach(1),
            TaskStep::Report,
        ]
    );
    assert_eq!(
        task_steps(0, 0, false),
        vec![TaskStep::Run(TestKind::Future), TaskStep::SignalDone, TaskStep::Report]
    );
}
