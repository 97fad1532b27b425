//! General description of UNIX file types.

use vstd::prelude::*;

use crate::error::Error;
use crate::fs::types::{Blkcnt, Blksize, Dev, Gid, Ino, Mode, Nlink, Off, Timespec, Uid};

verus! {

/// Minimal stat structure, as POSIX describes it.
#[derive(Debug, Clone, Copy)]
pub struct Stat {
    /// Device ID of device containing file.
    pub dev: Dev,
    /// File serial number.
    pub ino: Ino,
    /// Mode of file.
    pub mode: Mode,
    /// Number of hard links to the file.
    pub nlink: Nlink,
    /// User ID of file.
    pub uid: Uid,
    /// Group ID of file.
    pub gid: Gid,
    /// Device ID (if file is character or block special).
    pub rdev: Dev,
    /// For regular files, the file size in bytes; for symbolic links, the length of the path they hold.
    pub size: Off,
    /// Last data access time stamp.
    pub atim: Timespec,
    /// Last data modification time stamp.
    pub mtim: Timespec,
    /// Last file status change time stamp.
    pub ctim: Timespec,
    /// Preferred I/O block size for this object.
    pub blksize: Blksize,
    /// Number of blocks allocated for this object.
    pub blkcnt: Blkcnt,
}

/// Base trait to ensure a common filesystem error type.
pub trait Base {
    /// Error type of the filesystem.
    type FsError;
}

/// A readable UNIX file.
pub trait FileRead: Base {
    /// Retrieves information about this file.
    fn stat(&self) -> Stat;

    /// Retrieves the [`Type`] of this file.
    fn get_type(&self) -> Type;
}

/// Main trait for all UNIX files.
pub trait File: FileRead {
    /// Sets the [`Mode`] of this file.
    fn set_mode(&mut self, mode: Mode) -> Result<(), Error<Self::FsError>>;

    /// Sets the [`Uid`] (identifier of the user owner) of this file.
    fn set_uid(&mut self, uid: Uid) -> Result<(), Error<Self::FsError>>;

    /// Sets the [`Gid`] (identifier of the group) of this file.
    fn set_gid(&mut self, gid: Gid) -> Result<(), Error<Self::FsError>>;

    /// Sets the last data access time of this file.
    fn set_atim(&mut self, atim: Timespec) -> Result<(), Error<Self::FsError>>;

    /// Sets the last data modification time of this file.
    fn set_mtim(&mut self, mtim: Timespec) -> Result<(), Error<Self::FsError>>;

    /// Sets the last file status change time of this file.
    fn set_ctim(&mut self, ctim: Timespec) -> Result<(), Error<Self::FsError>>;
}

/// A readable regular file.
pub trait RegularRead: FileRead {}

/// A readable symbolic link.
pub trait SymbolicLinkRead: FileRead {}

/// A readable fifo.
pub trait FifoRead: FileRead {}

/// A fifo.
pub trait Fifo: File + FifoRead {}

/// A readable character device.
pub trait CharacterDeviceRead: FileRead {}

/// A character device.
pub trait CharacterDevice: File + CharacterDeviceRead {}

/// A readable block device.
pub trait BlockDeviceRead: FileRead {}

/// A block device.
pub trait BlockDevice: File + BlockDeviceRead {}

/// A readable UNIX socket.
pub trait SocketRead: FileRead {}

/// A UNIX socket.
pub trait Socket: File + SocketRead {}

/// A readable directory, with the types of the files of its filesystem.
pub trait DirectoryRead: Sized + Base {
    /// Type of the regular files.
    type Regular: RegularRead;
    /// Type of the symbolic links.
    type SymbolicLink: SymbolicLinkRead;
    /// Type of the fifos.
    type Fifo: FifoRead;
    /// Type of the character devices.
    type CharacterDevice: CharacterDeviceRead;
    /// Type of the block devices.
    type BlockDevice: BlockDeviceRead;
    /// Type of the UNIX sockets.
    type Socket: SocketRead;
}

/// A name given to a file in a directory.
pub struct DirectoryEntry<Dir: DirectoryRead> {
    /// Name of the file, as bytes.
    pub filename: Vec<u8>,
    /// The file.
    pub file: TypeWithFile<Dir>,
}

/// Enumeration of possible file types in a standard UNIX-like filesystem.
#[derive(Debug, Clone, Copy, PartialEq, Eq, Structural)]
pub enum Type {
    /// Storage unit of a filesystem.
    Regular,
    /// Node containing other nodes.
    Directory,
    /// Node pointing towards an other node in the filesystem.
    SymbolicLink,
    /// Named pipe.
    Fifo,
    /// An inode that refers to a device communicating by sending chars (bytes) of data.
    CharacterDevice,
    /// An inode that refers to a device communicating by sending blocks of data.
    BlockDevice,
    /// Communication flow between two processes.
    Socket,
}

/// A file with its type.
pub enum TypeWithFile<Dir: DirectoryRead> {
    /// Storage unit of a filesystem.
    Regular(Dir::Regular),
    /// Node containing other nodes.
    Directory(Dir),
    /// Node pointing towards an other node in the filesystem.
    SymbolicLink(Dir::SymbolicLink),
    /// Special node containing a fifo.
    Fifo(Dir::Fifo),
    /// Special node containing a character device.
    CharacterDevice(Dir::CharacterDevice),
    /// Special node containing a block device.
    BlockDevice(Dir::BlockDevice),
    /// Special node containing a UNIX socket.
    Socket(Dir::Socket),
}

/// The type of a file.
pub open spec fn type_of<Dir: DirectoryRead>(f: TypeWithFile<Dir>) -> Type {
    match f {
        TypeWithFile::Regular(_) => Type::Regular,
        TypeWithFile::Directory(_) => Type::Directory,
        TypeWithFile::SymbolicLink(_) => Type::SymbolicLink,
        TypeWithFile::Fifo(_) => Type::Fifo,
        TypeWithFile::CharacterDevice(_) => Type::CharacterDevice,
        TypeWithFile::BlockDevice(_) => Type::BlockDevice,
        TypeWithFile::Socket(_) => Type::Socket,
    }
}

impl<Dir: DirectoryRead> TypeWithFile<Dir> {
    /// Whether this file is a regular file.
    pub fn is_regular(&self) -> (res: bool)
        ensures
            res == (type_of(*self) == Type::Regular),
    {
        match self {
            TypeWithFile::Regular(_) => true,
            _ => false,
        }
    }

    /// Whether this file is a directory.
    pub fn is_directory(&self) -> (res: bool)
        ensures
            res == (type_of(*self) == Type::Directory),
    {
        match self {
            TypeWithFile::Directory(_) => true,
            _ => false,
        }
    }

    /// Whether this file is a symbolic link.
    pub fn is_symlink(&self) -> (res: bool)
        ensures
            res == (type_of(*self) == Type::SymbolicLink),
    {
        match self {
            TypeWithFile::SymbolicLink(_) => true,
            _ => false,
        }
    }

    /// Whether this file is a fifo.
    pub fn is_fifo(&self) -> (res: bool)
        ensures
            res == (type_of(*self) == Type::Fifo),
    {
        match self {
            TypeWithFile::Fifo(_) => true,
            _ => false,
        }
    }

    /// Whether this file is a character device.
    pub fn is_character_device(&self) -> (res: bool)
        ensures
            res == (type_of(*self) == Type::CharacterDevice),
    {
        match self {
            TypeWithFile::CharacterDevice(_) => true,
            _ => false,
        }
    }

    /// Whether this file is a block device.
    pub fn is_block_device(&self) -> (res: bool)
        ensures
            res == (type_of(*self) == Type::BlockDevice),
    {
        match self {
            TypeWithFile::BlockDevice(_) => true,
            _ => false,
        }
    }

    /// Whether this file is a UNIX socket.
    pub fn is_socket(&self) -> (res: bool)
        ensures
            res == (type_of(*self) == Type::Socket),
    {
        match self {
            TypeWithFile::Socket(_) => true,
            _ => false,
        }
    }

    /// The type of this file.
    pub fn file_type(&self) -> (res: Type)
        ensures
            res == type_of(*self),
    {
        match self {
            TypeWithFile::Regular(_) => Type::Regular,
            TypeWithFile::Directory(_) => Type::Directory,
            TypeWithFile::SymbolicLink(_) => Type::SymbolicLink,
            TypeWithFile::Fifo(_) => Type::Fifo,
            TypeWithFile::CharacterDevice(_) => Type::CharacterDevice,
            TypeWithFile::BlockDevice(_) => Type::BlockDevice,
            TypeWithFile::Socket(_) => Type::Socket,
        }
    }
}

impl<Dir: DirectoryRead> From<TypeWithFile<Dir>> for Type {
    fn from(value: TypeWithFile<Dir>) -> (res: Type) {
        value.file_type()
    }
}

impl<Dir: DirectoryRead> vstd::std_specs::convert::FromSpecImpl<TypeWithFile<Dir>> for Type {
    open spec fn obeys_from_spec() -> bool {
        true
    }

    open spec fn from_spec(v: TypeWithFile<Dir>) -> Type {
        type_of(v)
    }
}

} // verus!
