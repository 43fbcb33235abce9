//! Decision logic of a test harness that runs hooks before and after a
//! module's tests: the checksum that names a module's hook slots, the plan
//! that rewrites the functions of a test module, the reading of the test
//! runner's command line, and the state machines that drive a run.

pub mod hash;
pub mod args;
pub mod expand;
pub mod scheduler;
