//! Reading the test runner's command line: whether the run should keep
//! polling for tests submitted by other test threads.

use vstd::prelude::*;

verus! {

/// Why a command line cannot be served.
#[derive(Clone, Copy, Debug, PartialEq, Eq, Structural)]
pub enum LoopConfigError {
    /// The tests run on a single thread, so the hooks that run after all the
    /// tests could never see the other tests finish.
    SingleThreadWithAfterAll,
}

/// `i` is the first position of `target` in `args`.
pub open spec fn is_first_index(args: Seq<Seq<char>>, target: Seq<char>, i: int) -> bool {
    &&& 0 <= i < args.len()
    &&& args[i] == target
    &&& forall|j: int| 0 <= j < i ==> args[j] != target
}

/// The command line asks for a single test thread: either `--test-threads=1`,
/// or `1` right after the first `--test-threads`.
pub open spec fn requests_one_thread(args: Seq<Seq<char>>) -> bool {
    ||| args.contains("--test-threads=1"@)
    ||| exists|i: int|
        is_first_index(args, "--test-threads"@, i) && i + 1 < args.len() && args[i + 1]
            == "1"@
}

/// Whether the run keeps polling for tests: not when a single test is run
/// (`--exact`), not when the tests run on one thread (and then the hooks that
/// run after all tests are refused), and otherwise yes.
pub open spec fn spec_should_loop(args: Seq<Seq<char>>, has_after_all: bool) -> Result<
    bool,
    LoopConfigError,
> {
    if args.contains("--exact"@) {
        Ok(false)
    } else if requests_one_thread(args) {
        if has_after_all {
            Err(LoopConfigError::SingleThreadWithAfterAll)
        } else {
            Ok(false)
        }
    } else {
        Ok(true)
    }
}

/// The first position of `target` in `args`, if any.
fn position_of(args: &Vec<String>, target: &String) -> (r: Option<usize>)
    ensures
        match r {
            Some(i) => is_first_index(args.deep_view(), target@, i as int),
            None => !args.deep_view().contains(target@),
        },
{
    let mut i: usize = 0;
    while i < args.len()
        invariant
            i <= args.len(),
            forall|j: int| 0 <= j < i ==> args.deep_view()[j] != target@,
        decreases args.len() - i,
    {
        if args[i] == *target {
            return Some(i);
        }
        i = i + 1;
    }
    proof {
        assert forall|k: int| 0 <= k < args.deep_view().len() implies args.deep_view()[k]
            != target@ by {}
    }
    None
}

/// Whether the run keeps polling for tests that other test threads submit,
/// given the runner's arguments and whether the module has hooks that run
/// after all its tests. A single-threaded run with such hooks is refused.
pub fn should_loop(args: &Vec<String>, has_after_all: bool) -> (r: Result<bool, LoopConfigError>)
    ensures
        r == spec_should_loop(args.deep_view(), has_after_all),
{
    let exact = String::from_str("--exact");
    let one_thread = String::from_str("--test-threads=1");
    let threads = String::from_str("--test-threads");
    let one = String::from_str("1");
    if position_of(args, &exact).is_some() {
        return Ok(false);
    }
    let single = if position_of(args, &one_thread).is_some() {
        true
    } else {
        match position_of(args, &threads) {
            Some(i) => {
                if i < args.len() - 1 {
                    args[i + 1] == one
                } else {
                    false
                }
            },
            None => false,
        }
    };
    proof {
        let dv = args.deep_view();
        if !single && !dv.contains("--test-threads=1"@) {
            assert forall|k: int|
                is_first_index(dv, "--test-threads"@, k) && k + 1 < dv.len() implies dv[k + 1]
                != "1"@ by {}
        }
    }
    if single {
        if has_after_all {
            Err(LoopConfigError::SingleThreadWithAfterAll)
        } else {
            Ok(false)
        }
    } else {
        Ok(true)
    }
}

/// A run of a single test (`--exact`) never keeps polling, whatever else the
/// command line says and whether or not there are hooks after all tests.
pub proof fn law_exact_never_loops(args: Seq<Seq<char>>, has_after_all: bool)
    requires
        args.contains("--exact"@),
    ensures
        spec_should_loop(args, has_after_all) == Ok::<bool, LoopConfigError>(false),
{
}

/// A command line is refused only when it runs the tests on a single thread
/// (and not a single test), and only for a module with hooks after all tests;
/// the same command line without such hooks runs without polling.
pub proof fn law_refused_only_single_thread_with_after_all(
    args: Seq<Seq<char>>,
    has_after_all: bool,
)
    ensures
        spec_should_loop(args, has_after_all) is Err <==> (has_after_all && !args.contains(
            "--exact"@,
        ) && requests_one_thread(args)),
        spec_should_loop(args, true) is Err ==> spec_should_loop(args, false) == Ok::<
            bool,
            LoopConfigError,
        >(false),
{
}

/// Polling stops only for a single test or a single thread; every other
/// command line keeps polling.
pub proof fn law_loops_unless_exact_or_single_thread(args: Seq<Seq<char>>, has_after_all: bool)
    requires
        !args.contains("--exact"@),
        !requests_one_thread(args),
    ensures
        spec_should_loop(args, has_after_all) == Ok::<bool, LoopConfigError>(true),
{
}

/// A command line without `--exact` whose first `--test-threads` is directly
/// followed by `1`, wherever it stands and whatever follows it, runs on one
/// thread: it does not poll, and it is refused with hooks after all tests.
pub proof fn law_first_thread_count_of_one_means_one_thread(args: Seq<Seq<char>>, i: int)
    requires
        !args.contains("--exact"@),
        0 <= i,
        i + 1 < args.len(),
        args[i] == "--test-threads"@,
        forall|j: int| 0 <= j < i ==> args[j] != "--test-threads"@,
        args[i + 1] == "1"@,
    ensures
        spec_should_loop(args, false) == Ok::<bool, LoopConfigError>(false),
        spec_should_loop(args, true) == Err::<bool, LoopConfigError>(
            LoopConfigError::SingleThreadWithAfterAll,
        ),
{
    assert(is_first_index(args, "--test-threads"@, i));
}

/// A command line without `--exact` that holds `--test-threads=1` anywhere
/// runs on one thread: it does not poll, and it is refused with hooks after
/// all tests.
pub proof fn law_thread_flag_of_one_means_one_thread(args: Seq<Seq<char>>)
    requires
        !args.contains("--exact"@),
        args.contains("--test-threads=1"@),
    ensures
        spec_should_loop(args, false) == Ok::<bool, LoopConfigError>(false),
        spec_should_loop(args, true) == Err::<bool, LoopConfigError>(
            LoopConfigError::SingleThreadWithAfterAll,
        ),
{
}

/// A command line with neither `--exact`, nor `--test-threads=1`, nor `1`
/// right after its first `--test-threads` keeps polling, with or without
/// hooks after all tests.
pub proof fn law_other_command_lines_keep_polling(args: Seq<Seq<char>>, has_after_all: bool)
    requires
        !args.contains("--exact"@),
        !args.contains("--test-threads=1"@),
        forall|i: int|
            0 <= i && i + 1 < args.len() && #[trigger] args[i] == "--test-threads"@ && (forall|
                j: int,
            | 0 <= j < i ==> args[j] != "--test-threads"@) ==> args[i + 1] != "1"@,
    ensures
        spec_should_loop(args, has_after_all) == Ok::<bool, LoopConfigError>(true),
{
    if requests_one_thread(args) {
        let i = choose|i: int|
            is_first_index(args, "--test-threads"@, i) && i + 1 < args.len() && args[i + 1]
                == "1"@;
        assert(args[i] == "--test-threads"@);
    }
}

} // verus!
