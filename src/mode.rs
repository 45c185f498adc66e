//! Whether the hosting executable runs as the orchestrator or as a worker.

use crate::text::same_text;
use vstd::prelude::*;

verus! {

/// The launch argument that starts the hosting executable as a worker.
pub const WORKER_FLAG: &'static str = "--maplibre-worker";

/// The role of the running process, decided once at startup, before any other
/// initialisation.
#[derive(Debug, Clone, Copy, PartialEq, Eq, Structural)]
pub enum ProcessMode {
    /// The orchestrating process.
    Normal,
    /// A worker of a process pool: it only serves requests from its input.
    Worker,
}

/// The role that launch arguments `args` ask for: a worker exactly where one
/// of them is the worker flag.
pub fn process_mode(args: &Vec<String>) -> (r: ProcessMode)
    ensures
        r == ProcessMode::Worker <==> exists|i: int|
            0 <= i < args@.len() && #[trigger] args@[i]@ == WORKER_FLAG@,
{
    let mut i: usize = 0;
    while i < args.len()
        invariant
            i <= args@.len(),
            forall|j: int| 0 <= j < i ==> #[trigger] args@[j]@ != WORKER_FLAG@,
        decreases args@.len() - i,
    {
        if same_text(args[i].as_str(), WORKER_FLAG) {
            return ProcessMode::Worker;
        }
        i = i + 1;
    }
    ProcessMode::Normal
}

} // verus!
