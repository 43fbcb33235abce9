use testme::args::{should_loop, LoopConfigError};

fn args(list: &[&str]) -> Vec<String> {
    list.iter().map(|s| s.to_string()).collect()
}

#[test]
fn plain_run_keeps_polling() {
    assert_eq!(should_loop(&args(&["prog"]), false), Ok(true));
    assert_eq!(should_loop(&args(&["prog"]), true), Ok(true));
    assert_eq!(should_loop(&args(&[]), true), Ok(true));
}

#[test]
fn exact_run_does_not_poll() {
    assert_eq!(should_loop(&args(&["prog", "--exact", "t"]), false), Ok(false));
    assert_eq!(should_loop(&args(&["prog", "--exact", "--test-threads=1"]), true), Ok(false));
}

#[test]
fn single_thread_run_does_not_poll() {
    assert_eq!(should_loop(&args(&["prog", "--test-threads=1"]), false), Ok(false));
    assert_eq!(should_loop(&args(&["prog", "--test-threads", "1"]), false), Ok(false));
}

#[test]
fn single_thread_run_refuses_after_all() {
    assert_eq!(
        should_loop(&args(&["prog", "--test-threads=1"]), true),
        Err(LoopConfigError::SingleThreadWithAfterAll)
    );
    assert_eq!(
        should_loop(&args(&["prog", "--test-threads", "1"]), true),
        Err(LoopConfigError::SingleThreadWithAfterAll)
    );
}

#[test]
fn several_threads_keep_polling() {
    assert_eq!(should_loop(&args(&["prog", "--test-threads", "4"]), true), Ok(true));
    assert_eq!(should_loop(&args(&["prog", "--test-threads=4"]), true), Ok(true));
}

#[test]
fn only_the_first_thread_count_counts() {
    assert_eq!(
        should_loop(&args(&["prog", "--test-threads", "2", "--test-threads", "1"]), true),
        Ok(true)
    );
}

#[test]
fn thread_flag_without_value_keeps_polling() {
    assert_eq!(should_loop(&args(&["prog", "--test-threads"]), true), Ok(true));
}
