//! Errors.
use vstd::prelude::*;

verus! {

/// The error of a system call.
#[derive(Clone, Copy, Debug, PartialEq, Eq, Structural)]
pub struct SysError {
    pub errno: i32,
}

/// The error of a call of the C library, by the number that the operating system gave it.
#[derive(Clone, Copy, Debug, PartialEq, Eq, Structural)]
pub struct OsError {
    pub code: i32,
}

/// Why a container could not be run; `E` is the error of an operation on files or processes.
#[derive(Debug, PartialEq, Eq)]
pub enum ContainError<E> {
    /// A system call failed.
    SyscallError(SysError),
    /// An operation on files or processes failed.
    IoError(E),
    /// The configuration makes no sense.
    ConfigError,
}

impl<E: Copy> Clone for ContainError<E> {
    fn clone(&self) -> (r: Self)
        ensures
            r == *self,
    {
        *self
    }
}

impl<E: Copy> Copy for ContainError<E> {

}

/// The result of an operation on a container.
pub type ContainResult<T, E> = Result<T, ContainError<E>>;

} // verus!
