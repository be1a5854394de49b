use vstd::prelude::*;
use shared_memory::ShmemError;

verus! {

/// Errors of the shared-memory mapping layer, carried through unchanged.
#[verifier::external_type_specification]
#[verifier::external_body]
pub struct ExShmemError(ShmemError);

/// Errors of the operating system's directory listing, carried through unchanged.
#[verifier::external_type_specification]
#[verifier::external_body]
pub struct ExIoError(std::io::Error);

/// Everything that can go wrong on a shared-memory ring channel.
#[derive(Debug)]
pub enum ChannelError {
    SharedMemory(ShmemError),
    Full,
    Empty,
    InvalidCapacity,
    CapacityMismatch { expected: usize, found: usize },
    OverwriteMismatch { expected: bool, found: bool },
    TypeMismatch { expected: usize, found: usize },
    WriteOverflow { requested: usize, available: usize },
    NotInitialized,
    ListShm(std::io::Error),
    StaleCursor,
    NoPending,
}

} // verus!
