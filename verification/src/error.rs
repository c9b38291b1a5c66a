use vstd::prelude::*;

verus! {

/// The failures a queue operation can report.
#[derive(Clone, Copy, Debug, PartialEq, Eq, Structural)]
pub enum Error {
    /// A stored entry was not a validly encoded job.
    Encoding,
    /// The backing list store could not complete a command.
    Store,
    /// A handler reported that it could not process a job.
    Handler,
    /// The shutdown signal could not be delivered.
    Signal,
}

} // verus!
