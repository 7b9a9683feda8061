//! The per-process logger handle.

use crate::command_parser::Process;
use vstd::prelude::*;

verus! {

/// Writes the output of one process.
pub struct Logger<'a> {
    pub process: &'a Process,
}

impl<'a> Logger<'a> {
    pub fn new(process: &'a Process) -> (r: Logger<'a>)
        ensures
            r.process == process,
    {
        Logger { process }
    }
}

} // verus!
