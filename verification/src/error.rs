//! Interface for the possible errors of the filesystem layer.

use vstd::prelude::*;

use crate::arch::ArchError;

verus! {

/// Filesystem error type of operations that cannot fail in a filesystem-specific way.
///
/// No operation ever produces a value of it: an error of type `Error<NoFsError>` is never
/// `FsError::Implementation`.
#[derive(Debug, Clone, Copy, PartialEq, Eq)]
pub struct NoFsError;

/// Kinds of input/output failures reported by a device.
#[derive(Debug, Clone, Copy, PartialEq, Eq)]
pub enum IoError {
    /// The operation tried to reach an address outside of the device.
    InvalidInput,
    /// The end of the data was reached before the operation could complete.
    UnexpectedEof,
    /// The device itself failed.
    Other,
}

/// Errors of path manipulation.
#[derive(Debug, Clone, PartialEq, Eq)]
pub enum PathError {
    /// An absolute path was required, the given (relative) one is attached.
    AbsolutePathRequired(Vec<u8>),
}

/// Enumeration of possible errors encountered with filesystems' manipulation.
#[derive(Debug, Clone, PartialEq, Eq)]
pub enum FsError<E> {
    /// The given entry already exists in the given directory.
    EntryAlreadyExist(Vec<u8>),
    /// The error comes from the filesystem's implementation.
    Implementation(E),
    /// A loop has been encountered during the resolution of the given path.
    Loop(Vec<u8>),
    /// The given path is too long to be resolved.
    NameTooLong(Vec<u8>),
    /// The given file name is not a directory.
    NotDir(Vec<u8>),
    /// The given file name is a symbolic link pointing at an empty string.
    NoEnt(Vec<u8>),
    /// The given file name has not been found.
    NotFound(Vec<u8>),
    /// Tried to remove the current directory or a parent directory.
    RemoveRefused,
    /// Tried to perform an operation that the filesystem does not support.
    UnsupportedOperation(Vec<u8>),
    /// Tried to assign a wrong type to a file.
    WrongFileType { expected: crate::fs::file::Type, given: crate::fs::file::Type },
}

impl<FSE> FsError<FSE> {
    /// Converts an error that carries no implementation error into the same error for any filesystem error type.
    pub fn from_infallible(err: FsError<NoFsError>) -> (res: Self)
        requires
            !(err is Implementation),
        ensures
            res == fs_error_lift::<FSE>(err),
    {
        match err {
            FsError::EntryAlreadyExist(e) => FsError::EntryAlreadyExist(e),
            FsError::Implementation(_) => {
                proof {
                    assert(false);
                }
                FsError::RemoveRefused
            },
            FsError::Loop(e) => FsError::Loop(e),
            FsError::NameTooLong(e) => FsError::NameTooLong(e),
            FsError::NotDir(e) => FsError::NotDir(e),
            FsError::NoEnt(e) => FsError::NoEnt(e),
            FsError::NotFound(e) => FsError::NotFound(e),
            FsError::RemoveRefused => FsError::RemoveRefused,
            FsError::UnsupportedOperation(e) => FsError::UnsupportedOperation(e),
            FsError::WrongFileType { expected, given } => FsError::WrongFileType { expected, given },
        }
    }
}

/// The same error with its (absent) implementation error seen at type `FSE`.
pub open spec fn fs_error_lift<FSE>(err: FsError<NoFsError>) -> FsError<FSE> {
    match err {
        FsError::EntryAlreadyExist(e) => FsError::EntryAlreadyExist(e),
        FsError::Implementation(_) => arbitrary(),
        FsError::Loop(e) => FsError::Loop(e),
        FsError::NameTooLong(e) => FsError::NameTooLong(e),
        FsError::NotDir(e) => FsError::NotDir(e),
        FsError::NoEnt(e) => FsError::NoEnt(e),
        FsError::NotFound(e) => FsError::NotFound(e),
        FsError::RemoveRefused => FsError::RemoveRefused,
        FsError::UnsupportedOperation(e) => FsError::UnsupportedOperation(e),
        FsError::WrongFileType { expected, given } => FsError::WrongFileType { expected, given },
    }
}

/// Enumeration of possible sources of error.
#[derive(Debug, Clone, PartialEq, Eq)]
pub enum Error<FSE> {
    /// Architecture error.
    Arch(ArchError),
    /// Filesystem error.
    Fs(FsError<FSE>),
    /// Path error.
    Path(PathError),
    /// I/O error.
    IO(IoError),
}

/// The same error with its (absent) implementation error seen at type `FSE`.
pub open spec fn error_lift<FSE>(err: Error<NoFsError>) -> Error<FSE> {
    match err {
        Error::Arch(a) => Error::Arch(a),
        Error::Fs(f) => Error::Fs(fs_error_lift::<FSE>(f)),
        Error::Path(p) => Error::Path(p),
        Error::IO(i) => Error::IO(i),
    }
}

impl<FSE> Error<FSE> {
    /// Converts an error that carries no implementation error into the same error for any filesystem error type.
    pub fn from_infallible(err: Error<NoFsError>) -> (res: Self)
        requires
            !(err matches Error::Fs(FsError::Implementation(_))),
        ensures
            res == error_lift::<FSE>(err),
    {
        match err {
            Error::Arch(arch_error) => Error::Arch(arch_error),
            Error::Fs(fs_error) => Error::Fs(FsError::<FSE>::from_infallible(fs_error)),
            Error::Path(path_error) => Error::Path(path_error),
            Error::IO(io_error) => Error::IO(io_error),
        }
    }
}

} // verus!
