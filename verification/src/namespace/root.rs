//! The decisions of the root file system service when it answers an `Open` request: which requests it
//! refuses, how large the buffer handed back is, and which file type it reports.

use vstd::prelude::*;

use crate::namespace::protocol::{
    NAMESPACE_FILE_TYPE_DIRECTORY, NAMESPACE_FILE_TYPE_REGULAR, NAMESPACE_INTERNAL_ERROR, NAMESPACE_INVALID_ARGUMENT,
    NAMESPACE_UNKNOWN_OP,
};
use crate::text::is_utf8;

verus! {

/// Size of a page of the buffers handed back.
pub const PAGE_SIZE: usize = 4096;

/// What the file system found at the path of an `Open` request.
#[derive(Debug, Clone, Copy, PartialEq, Eq, Structural)]
pub enum OpenedFile {
    /// A regular file of the given size in bytes.
    Regular { size: u64 },
    /// A directory.
    Directory,
    /// Anything else (a symbolic link, a device...).
    Other,
}

/// `len` rounded up to a whole number of pages.
pub open spec fn page_round_up(len: int) -> int {
    ((len + 4095) / 4096) * 4096
}

/// Checks a request: only `Open` is served ([`NAMESPACE_UNKNOWN_OP`] otherwise), and its data is the path,
/// which must be UTF-8 ([`NAMESPACE_INVALID_ARGUMENT`] otherwise). Gives the path.
pub fn root_open_path(is_open: bool, data: &[u8]) -> (res: Result<Vec<u8>, i32>)
    ensures
        !is_open ==> res == Err::<Vec<u8>, i32>(NAMESPACE_UNKNOWN_OP),
        is_open && !vstd::utf8::valid_utf8(data@) ==> res == Err::<Vec<u8>, i32>(NAMESPACE_INVALID_ARGUMENT),
        is_open && vstd::utf8::valid_utf8(data@) ==> (res matches Ok(p) && p@ == data@),
{
    if !is_open {
        return Err(NAMESPACE_UNKNOWN_OP);
    }
    if !is_utf8(data) {
        return Err(NAMESPACE_INVALID_ARGUMENT);
    }
    let mut path: Vec<u8> = Vec::new();
    let mut i: usize = 0;
    while i < data.len()
        invariant
            i <= data@.len(),
            path@ == data@.subrange(0, i as int),
        decreases data@.len() - i,
    {
        path.push(data[i]);
        i = i + 1;
    }
    proof {
        assert(data@.subrange(0, data@.len() as int) =~= data@);
    }
    Ok(path)
}

/// Rounds `len` up to a whole number of pages.
pub fn round_to_pages(len: usize) -> (res: usize)
    requires
        len + 4095 <= usize::MAX,
    ensures
        res == page_round_up(len as int),
        res % 4096 == 0,
        len <= res < len + 4096,
{
    let sum: usize = len + 4095;
    let res = sum & !4095usize;
    assert(sum & !4095usize == (sum / 4096) * 4096) by (bit_vector);
    res
}

/// Size of the buffer a regular file of `size` bytes is copied into: one page for an empty file, else the
/// size rounded up to whole pages.
pub fn regular_copy_size(size: u64) -> (res: usize)
    requires
        size + 4095 <= usize::MAX,
    ensures
        size == 0 ==> res == PAGE_SIZE,
        size > 0 ==> res == page_round_up(size as int),
{
    if size == 0 {
        PAGE_SIZE
    } else {
        round_to_pages(size as usize)
    }
}

/// The file type reported for what was opened: regular files and directories are served, anything else
/// fails with [`NAMESPACE_INTERNAL_ERROR`].
pub fn opened_file_type(file: OpenedFile) -> (res: Result<i32, i32>)
    ensures
        file is Regular ==> res == Ok::<i32, i32>(NAMESPACE_FILE_TYPE_REGULAR),
        file is Directory ==> res == Ok::<i32, i32>(NAMESPACE_FILE_TYPE_DIRECTORY),
        file is Other ==> res == Err::<i32, i32>(NAMESPACE_INTERNAL_ERROR),
{
    match file {
        OpenedFile::Regular { .. } => Ok(NAMESPACE_FILE_TYPE_REGULAR),
        OpenedFile::Directory => Ok(NAMESPACE_FILE_TYPE_DIRECTORY),
        OpenedFile::Other => Err(NAMESPACE_INTERNAL_ERROR),
    }
}

} // verus!
