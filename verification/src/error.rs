//! The errors a metrics pipeline operation can surface.
use vstd::prelude::*;

verus! {

/// Any error that may result from pipeline usage. Hot-path writes never
/// surface errors; flushes do.
#[derive(Debug, Clone, Copy, PartialEq, Eq, Structural)]
pub enum Error {
    /// The underlying sink refused a write or a flush.
    IO,
    /// The asynchronous queue's worker has exited; the command was not
    /// delivered.
    Async,
}

impl Error {
    /// A short description of the error.
    pub fn message(&self) -> (r: &'static str)
        ensures
            *self is IO ==> r@ == "i/o error"@,
            *self is Async ==> r@ == "async queue closed"@,
    {
        match self {
            Error::IO => "i/o error",
            Error::Async => "async queue closed",
        }
    }
}

} // verus!
