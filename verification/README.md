# testme

The decisions of a test harness that runs hooks before and after a module's
tests, verified with Verus.

- `src/hash.rs`: the Adler-32 checksum (computed by `adler2`) that names a
  module's hook slices.
- `src/expand.rs`: the plan that rewrites a test module: which functions are
  tests (blocking or async), which are hooks and in which slot, the slice
  names, and the items the rewritten module starts with.
- `src/args.rs`: whether a run keeps polling for tests, read from the test
  runner's arguments.
- `src/scheduler.rs`: the poller and the steps of a run and of each test's
  task, with the laws on their order and on when polling stops.
- `app/`: the tokio runtime that performs those steps, and the rewriting of
  the module's tokens with `syn` and `quote` following the plan.
