//! The failures of a running computation.

use vstd::prelude::*;

verus! {

/// std's error of a receive on a channel whose senders are all gone.
#[verifier::external_type_specification]
#[verifier::external_body]
pub struct ExRecvError(std::sync::mpsc::RecvError);

/// std's I/O error.
#[verifier::external_type_specification]
#[verifier::external_body]
pub struct ExIoError(std::io::Error);

/// A failure while the pixels are computed: the buffer's contents are then
/// undefined.
pub enum ComputeError {
    /// A worker panicked.
    ThreadPanicked,
    /// The channel between the workers and the collector broke.
    Communication(std::sync::mpsc::RecvError),
    /// Any other I/O failure.
    IO(std::io::Error),
}

impl From<std::sync::mpsc::RecvError> for ComputeError {
    fn from(e: std::sync::mpsc::RecvError) -> (r: ComputeError)
        ensures
            r == ComputeError::Communication(e),
    {
        ComputeError::Communication(e)
    }
}

impl vstd::std_specs::convert::FromSpecImpl<std::sync::mpsc::RecvError> for ComputeError {
    open spec fn obeys_from_spec() -> bool {
        true
    }

    open spec fn from_spec(e: std::sync::mpsc::RecvError) -> ComputeError {
        ComputeError::Communication(e)
    }
}

impl From<std::io::Error> for ComputeError {
    fn from(e: std::io::Error) -> (r: ComputeError)
        ensures
            r == ComputeError::IO(e),
    {
        ComputeError::IO(e)
    }
}

impl vstd::std_specs::convert::FromSpecImpl<std::io::Error> for ComputeError {
    open spec fn obeys_from_spec() -> bool {
        true
    }

    open spec fn from_spec(e: std::io::Error) -> ComputeError {
        ComputeError::IO(e)
    }
}

} // verus!
