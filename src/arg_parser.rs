//! The run's options in resolved form.

use vstd::prelude::*;

verus! {

/// The options of a run, with the concurrency cap already resolved.
#[derive(Debug, Clone)]
pub struct CommandArgs {
    pub kill_others: bool,
    pub kill_others_on_fail: bool,
    pub restart_tries: i64,
    pub restart_after: i64,
    pub prefix: Option<String>,
    pub prefix_length: i16,
    pub max_processes: i32,
    pub raw: bool,
    pub no_color: bool,
}

} // verus!
