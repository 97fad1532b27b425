//! Blocks of a filesystem read and written through a cursor, and the seeking rules of files and blocks.
//!
//! A block is a contiguous part of the device; all blocks of a filesystem have the same size and the `n`-th
//! starts at byte `n * size`.

use vstd::prelude::*;

use crate::dev::address::{fits_u64, lemma_address_ops, Address};
use crate::dev::{write_bytes, Device};
use crate::error::IoError;

verus! {

/// Where a seek goes.
#[derive(Debug, Clone, Copy, PartialEq, Eq, Structural)]
pub enum SeekFrom {
    /// To this offset.
    Start(u64),
    /// To the end moved by this many bytes.
    End(i64),
    /// To the current offset moved by this many bytes.
    Current(i64),
}

/// The offset a seek aims at from `current` in an object whose end is at `end`, `None` when it is negative
/// or does not fit on 64 bits.
pub open spec fn seek_target(current: u64, end: i64, pos: SeekFrom) -> Option<u64> {
    match pos {
        SeekFrom::Start(offset) => Some(offset),
        SeekFrom::End(back) => if end + back >= 0 {
            Some((end + back) as u64)
        } else {
            None
        },
        SeekFrom::Current(add) => if current + add >= 0 {
            Some((current + add) as u64)
        } else {
            None
        },
    }
}

/// Whether a seek from `current` in an object whose end is at `end` computes its target without overflow.
pub open spec fn seek_computable(current: u64, end: i64, pos: SeekFrom) -> bool {
    match pos {
        SeekFrom::Start(_) => true,
        SeekFrom::End(back) => i64::MIN <= end + back <= i64::MAX,
        SeekFrom::Current(add) => current <= i64::MAX && i64::MIN <= current + add <= i64::MAX,
    }
}

/// The target of a seek (see [`seek_target`]).
fn compute_seek_target(current: u64, end: i64, pos: SeekFrom) -> (res: Option<u64>)
    requires
        seek_computable(current, end, pos),
    ensures
        res == seek_target(current, end, pos),
{
    match pos {
        SeekFrom::Start(offset) => Some(offset),
        SeekFrom::End(back) => {
            let t = end + back;
            if t >= 0 {
                Some(t as u64)
            } else {
                None
            }
        },
        SeekFrom::Current(add) => {
            let t = (current as i64) + add;
            if t >= 0 {
                Some(t as u64)
            } else {
                None
            }
        },
    }
}

/// Seeks in a file of `length` bytes whose read/write offset is `io_offset`: the offset moves to the
/// target and the previous offset is returned. A negative target fails with [`IoError::InvalidInput`] and
/// leaves the offset; a target past the end fails likewise but the offset has moved to it.
pub fn seek_in_file(io_offset: &mut u64, length: u64, pos: SeekFrom) -> (res: Result<u64, IoError>)
    requires
        length <= i64::MAX,
        seek_computable(*old(io_offset), length as i64, pos),
    ensures
        seek_target(*old(io_offset), length as i64, pos) is None ==> res == Err::<u64, IoError>(IoError::InvalidInput)
            && *final(io_offset) == *old(io_offset),
        seek_target(*old(io_offset), length as i64, pos) matches Some(t) ==> *final(io_offset) == t && res == (if t
            > length {
            Err::<u64, IoError>(IoError::InvalidInput)
        } else {
            Ok(*old(io_offset))
        }),
{
    let previous = *io_offset;
    match compute_seek_target(previous, length as i64, pos) {
        Some(t) => {
            *io_offset = t;
        },
        None => return Err(IoError::InvalidInput),
    }
    if *io_offset > length {
        Err(IoError::InvalidInput)
    } else {
        Ok(previous)
    }
}

/// A block of a filesystem with a read/write offset in it.
#[derive(Debug, Clone, Copy, PartialEq, Eq, Structural)]
pub struct BlockWrapper {
    number: u64,
    size: u32,
    io_offset: u64,
}

impl BlockWrapper {
    /// Number of the block.
    pub closed spec fn spec_number(&self) -> u64 {
        self.number
    }

    /// Size of the block in bytes.
    pub closed spec fn spec_size(&self) -> u32 {
        self.size
    }

    /// Offset of the next read or write in the block.
    pub closed spec fn spec_io_offset(&self) -> u64 {
        self.io_offset
    }

    /// Address on the device of the next read or write.
    pub open spec fn position(&self) -> int {
        self.spec_number() * self.spec_size() + self.spec_io_offset()
    }

    /// Block `number` of `size` bytes, with the offset at its start.
    pub fn new_wrapper(number: u64, size: u32) -> (res: Self)
        ensures
            res.spec_number() == number,
            res.spec_size() == size,
            res.spec_io_offset() == 0,
    {
        BlockWrapper { number, size, io_offset: 0 }
    }

    /// Number of the block.
    pub fn number(&self) -> (res: u64)
        ensures
            res == self.spec_number(),
    {
        self.number
    }

    /// Size of the block in bytes.
    pub fn size(&self) -> (res: u32)
        ensures
            res == self.spec_size(),
    {
        self.size
    }

    /// Offset of the next read or write in the block.
    pub fn io_offset(&self) -> (res: u64)
        ensures
            res == self.spec_io_offset(),
    {
        self.io_offset
    }

    /// Reads `buf.len()` bytes from the offset on, which then moves past them; fails as reading the device
    /// does, and leaves the offset then.
    pub fn read<D: Device>(&mut self, device: &mut D, buf: &mut [u8]) -> (res: Result<usize, IoError>)
        requires
            old(self).spec_io_offset() + old(buf)@.len() <= old(self).spec_size(),
            fits_u64(old(self).position() + old(buf)@.len()),
        ensures
            final(device).contents() == old(device).contents(),
            final(self).spec_number() == old(self).spec_number(),
            final(self).spec_size() == old(self).spec_size(),
            res is Err ==> *final(self) == *old(self) && final(buf)@ == old(buf)@,
            res matches Ok(n) ==> n == old(buf)@.len() && old(self).position() + n <= old(device).contents().len()
                && final(self).spec_io_offset() == old(self).spec_io_offset() + n && final(buf)@
                == old(device).contents().subrange(
                old(self).position(),
                old(self).position() + n,
            ),
    {
        let length = buf.len();
        let start_index = self.number * (self.size as u64) + self.io_offset;
        let start = Address::new(start_index);
        proof {
            lemma_address_ops(start, start, length as u64);
        }
        let end = start + (length as u64);
        let slice = match device.slice(start..end) {
            Ok(s) => s,
            Err(e) => return Err(e),
        };
        let bytes = slice.as_bytes();
        let mut i: usize = 0;
        while i < length
            invariant
                length == buf@.len(),
                bytes@.len() == length,
                i <= length,
                forall|k: int| 0 <= k < i ==> buf@[k] == bytes@[k],
            decreases length - i,
        {
            buf[i] = bytes[i];
            i = i + 1;
        }
        assert(buf@ =~= bytes@);
        self.io_offset = self.io_offset + (length as u64);
        Ok(length)
    }

    /// Writes as much of `buf` as fits before the end of the block from the offset on, which then moves past
    /// what was written; fails as the device does, and leaves the offset then.
    pub fn write<D: Device>(&mut self, device: &mut D, buf: &[u8]) -> (res: Result<usize, IoError>)
        requires
            old(self).spec_io_offset() <= old(self).spec_size(),
            fits_u64(old(self).position() + old(self).spec_size()),
        ensures
            final(self).spec_number() == old(self).spec_number(),
            final(self).spec_size() == old(self).spec_size(),
            res is Err ==> *final(self) == *old(self) && final(device).contents() == old(device).contents(),
            res matches Ok(n) ==> {
                &&& n == (if buf@.len() < old(self).spec_size() - old(self).spec_io_offset() {
                    buf@.len() as int
                } else {
                    old(self).spec_size() - old(self).spec_io_offset()
                })
                &&& final(self).spec_io_offset() == old(self).spec_io_offset() + n
                &&& final(device).contents() == write_bytes(
                    old(device).contents(),
                    old(self).position(),
                    buf@.subrange(0, n as int),
                )
            },
    {
        let remaining = (self.size as u64 - self.io_offset) as usize;
        let length = if buf.len() < remaining {
            buf.len()
        } else {
            remaining
        };
        let start_index = self.number * (self.size as u64) + self.io_offset;
        let start = Address::new(start_index);
        proof {
            lemma_address_ops(start, start, length as u64);
        }
        let end = start + (length as u64);
        let mut slice = match device.slice(start..end) {
            Ok(s) => s,
            Err(e) => return Err(e),
        };
        let ghost part = buf@.subrange(0, length as int);
        let mut i: usize = 0;
        while i < length
            invariant
                length <= buf@.len(),
                slice.bytes().len() == length,
                slice.start() == start,
                i <= length,
                forall|k: int| 0 <= k < i ==> slice.bytes()[k] == buf@[k],
            decreases length - i,
        {
            slice.set(i, buf[i]);
            i = i + 1;
        }
        let ghost written = slice.bytes();
        assert(written =~= part);
        let commit = slice.commit();
        match device.commit(commit) {
            Ok(()) => {},
            Err(e) => return Err(e),
        }

        self.io_offset = self.io_offset + (length as u64);
        Ok(length)
    }

    /// Seeks in the block: the offset moves to the target and the previous offset is returned. A negative
    /// target fails with [`IoError::InvalidInput`] and leaves the offset; a target at or past the end of the
    /// block fails likewise but the offset has moved to it.
    pub fn seek(&mut self, pos: SeekFrom) -> (res: Result<u64, IoError>)
        requires
            seek_computable(old(self).spec_io_offset(), old(self).spec_size() as i64, pos),
        ensures
            final(self).spec_number() == old(self).spec_number(),
            final(self).spec_size() == old(self).spec_size(),
            seek_target(old(self).spec_io_offset(), old(self).spec_size() as i64, pos) is None ==> res == Err::<
                u64,
                IoError,
            >(IoError::InvalidInput) && *final(self) == *old(self),
            seek_target(old(self).spec_io_offset(), old(self).spec_size() as i64, pos) matches Some(t) ==> final(self).spec_io_offset() == t && res == (if t >= old(self).spec_size() {
                Err::<u64, IoError>(IoError::InvalidInput)
            } else {
                Ok(old(self).spec_io_offset())
            }),
    {
        let previous = self.io_offset;
        match compute_seek_target(previous, self.size as i64, pos) {
            Some(t) => {
                self.io_offset = t;
            },
            None => return Err(IoError::InvalidInput),
        }
        if self.io_offset >= self.size as u64 {
            Err(IoError::InvalidInput)
        } else {
            Ok(previous)
        }
    }
}

} // verus!
