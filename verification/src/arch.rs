//! Architecture related functions, such as integer conversions.

use vstd::prelude::*;

use crate::error::{Error, NoFsError};

verus! {

/// Enumeration of possible errors encountered with integer conversion.
#[derive(Debug, Clone, Copy, PartialEq, Eq)]
pub enum ArchError {
    /// Tried to convert a `usize` that does not fit into a `u32`.
    UsizeToU32(usize),
    /// Tried to convert a `u64` that does not fit into a `usize`.
    U64ToUsize(u64),
}

/// Converts a `usize` into a `u32`.
///
/// Fails with [`ArchError::UsizeToU32`] exactly when `n` does not fit on a `u32`.
pub fn usize_to_u32(n: usize) -> (res: Result<u32, Error<NoFsError>>)
    ensures
        n <= u32::MAX ==> res == Ok::<u32, Error<NoFsError>>(n as u32),
        n > u32::MAX ==> res == Err::<u32, Error<NoFsError>>(Error::Arch(ArchError::UsizeToU32(n))),
{
    if n <= (u32::MAX as usize) {
        Ok(n as u32)
    } else {
        Err(Error::Arch(ArchError::UsizeToU32(n)))
    }
}

/// Converts a `usize` into a `u64` (every supported architecture has `usize` at most 64 bits wide).
pub fn usize_to_u64(n: usize) -> (res: u64)
    ensures
        res == n,
{
    n as u64
}

/// Converts a `u32` into a `usize` (every supported architecture has `usize` at least 32 bits wide).
pub fn u32_to_usize(n: u32) -> (res: usize)
    ensures
        res == n,
{
    n as usize
}

/// Converts a `u64` into a `usize`.
///
/// Fails with [`ArchError::U64ToUsize`] exactly when `n` does not fit on a `usize`.
pub fn u64_to_usize(n: u64) -> (res: Result<usize, Error<NoFsError>>)
    ensures
        n <= usize::MAX ==> res == Ok::<usize, Error<NoFsError>>(n as usize),
        n > usize::MAX ==> res == Err::<usize, Error<NoFsError>>(Error::Arch(ArchError::U64ToUsize(n))),
{
    if n <= (usize::MAX as u64) {
        Ok(n as usize)
    } else {
        Err(Error::Arch(ArchError::U64ToUsize(n)))
    }
}

} // verus!
