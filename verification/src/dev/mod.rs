//! Devices: structures storing a fixed number of contiguous bytes, each located at a unique [`Address`].
//!
//! A [`Slice`] of a device holds a copy of some of its bytes; once mutated it can be committed into a
//! [`Commit`], which the device writes back.

pub mod address;

use vstd::prelude::*;
use vstd::slice::{slice_subrange, slice_to_vec};

use crate::error::IoError;
use crate::fs::types::Timespec;
use self::address::{Address, fits_u64};

verus! {

/// Size of a device, in bytes.
#[derive(Debug, Clone, Copy, PartialEq, Eq, Structural, PartialOrd, Ord)]
pub struct Size(pub u64);

/// The bytes `s` with the bytes `b` written from `addr` on.
pub open spec fn write_bytes(s: Seq<u8>, addr: int, b: Seq<u8>) -> Seq<u8> {
    s.subrange(0, addr) + b + s.subrange(addr + b.len(), s.len() as int)
}

/// Slice of a device: a copy of the bytes of a range of the device, with the address of its first byte.
#[derive(Debug, Clone)]
pub struct Slice {
    /// Elements of the slice.
    inner: Vec<u8>,
    /// Whether the elements were changed since the slice was taken from the device.
    mutated: bool,
    /// Starting address of the slice.
    starting_addr: Address,
}

impl Slice {
    /// The bytes of the slice.
    pub closed spec fn bytes(&self) -> Seq<u8> {
        self.inner@
    }

    /// The starting address of the slice.
    pub closed spec fn start(&self) -> Address {
        self.starting_addr
    }

    /// Whether the slice has been mutated.
    pub closed spec fn mutated(&self) -> bool {
        self.mutated
    }

    /// Creates a new, unmutated [`Slice`] holding a copy of the given bytes.
    pub fn new(inner: &[u8], starting_addr: Address) -> (res: Self)
        ensures
            res.bytes() == inner@,
            res.start() == starting_addr,
            !res.mutated(),
    {
        Slice { inner: slice_to_vec(inner), mutated: false, starting_addr }
    }

    /// Creates a new [`Slice`] from owned bytes, which count as mutated.
    pub fn new_owned(inner: Vec<u8>, starting_addr: Address) -> (res: Self)
        ensures
            res.bytes() == inner@,
            res.start() == starting_addr,
            res.mutated(),
    {
        Slice { inner, mutated: true, starting_addr }
    }

    /// Returns the starting address of the slice.
    pub fn addr(&self) -> (res: Address)
        ensures
            res == self.start(),
    {
        self.starting_addr
    }

    /// Checks whether the slice has been mutated or not.
    pub fn is_mutated(&self) -> (res: bool)
        ensures
            res == self.mutated(),
    {
        self.mutated
    }

    /// Returns the number of bytes of the slice.
    pub fn len(&self) -> (res: usize)
        ensures
            res == self.bytes().len(),
    {
        self.inner.len()
    }

    /// Returns the bytes of the slice.
    pub fn as_bytes(&self) -> (res: &[u8])
        ensures
            res@ == self.bytes(),
    {
        self.inner.as_slice()
    }

    /// Gives mutable access to the bytes, which marks the slice as mutated even if nothing is written; the slice
    /// then holds what was left in them.
    pub fn as_mut(&mut self) -> (res: &mut [u8])
        ensures
            res@ == old(self).bytes(),
            final(self).bytes() == final(res)@,
            final(self).start() == old(self).start(),
            final(self).mutated(),
    {
        self.mutated = true;
        self.inner.as_mut_slice()
    }

    /// Sets the byte at the given offset, which marks the slice as mutated.
    pub fn set(&mut self, index: usize, value: u8)
        requires
            index < old(self).bytes().len(),
        ensures
            final(self).bytes() == old(self).bytes().update(index as int, value),
            final(self).start() == old(self).start(),
            final(self).mutated(),
    {
        self.inner.set(index, value);
        self.mutated = true;
    }

    /// Overwrites the bytes from the given offset on with `bytes`, which marks the slice as mutated.
    pub fn write_at(&mut self, offset: usize, bytes: &[u8])
        requires
            offset + bytes@.len() <= old(self).bytes().len(),
        ensures
            final(self).bytes() == write_bytes(old(self).bytes(), offset as int, bytes@),
            final(self).start() == old(self).start(),
            final(self).mutated(),
    {
        let total = self.inner.len();
        let mut i: usize = 0;
        while i < bytes.len()
            invariant
                total == old(self).bytes().len(),
                offset + bytes@.len() <= old(self).bytes().len(),
                i <= bytes@.len(),
                self.inner@.len() == old(self).bytes().len(),
                self.starting_addr == old(self).start(),
                forall|j: int| 0 <= j < offset ==> self.inner@[j] == old(self).bytes()[j],
                forall|j: int| offset <= j < offset + i ==> self.inner@[j] == bytes@[j - offset],
                forall|j: int| offset + i <= j < self.inner@.len() ==> self.inner@[j] == old(self).bytes()[j],
            decreases bytes@.len() - i,
        {
            self.inner.set(offset + i, bytes[i]);
            i = i + 1;
        }
        self.mutated = true;
        assert(self.inner@ =~= write_bytes(old(self).bytes(), offset as int, bytes@));
    }

    /// Commits the write operations onto the slice and returns a [`Commit`]ed object.
    pub fn commit(self) -> (res: Commit)
        ensures
            res.bytes() == self.bytes(),
            res.start() == self.start(),
    {
        Commit::new(self.inner, self.starting_addr)
    }
}

/// Committed slice of a device: bytes to write at an address.
#[derive(Debug, Clone)]
pub struct Commit {
    /// Elements of the commit.
    inner: Vec<u8>,
    /// Starting address of the commit.
    starting_addr: Address,
}

impl Commit {
    /// The bytes of the commit.
    pub closed spec fn bytes(&self) -> Seq<u8> {
        self.inner@
    }

    /// The starting address of the commit.
    pub closed spec fn start(&self) -> Address {
        self.starting_addr
    }

    /// Creates a new [`Commit`] instance.
    pub fn new(inner: Vec<u8>, starting_addr: Address) -> (res: Self)
        ensures
            res.bytes() == inner@,
            res.start() == starting_addr,
    {
        Commit { inner, starting_addr }
    }

    /// Returns the starting address of the commit.
    pub fn addr(&self) -> (res: Address)
        ensures
            res == self.start(),
    {
        self.starting_addr
    }

    /// Returns the bytes of the commit.
    pub fn as_bytes(&self) -> (res: &[u8])
        ensures
            res@ == self.bytes(),
    {
        self.inner.as_slice()
    }
}

/// General interface for devices containing a file system.
pub trait Device {
    /// The bytes stored on the device.
    spec fn contents(&self) -> Seq<u8>;

    /// Size of this device, in bytes.
    fn size(&mut self) -> (res: Size)
        ensures
            res.0 == old(self).contents().len(),
            final(self).contents() == old(self).contents(),
    ;

    /// Returns a [`Slice`] holding the bytes of the device between the addresses of the range.
    fn slice(&mut self, addr_range: core::ops::Range<Address>) -> (res: Result<Slice, IoError>)
        requires
            addr_range.start@ <= addr_range.end@,
        ensures
            final(self).contents() == old(self).contents(),
            res matches Ok(s) ==> addr_range.end@ <= old(self).contents().len() && s.bytes() == old(self).contents().subrange(addr_range.start@ as int, addr_range.end@ as int) && s.start()
                == addr_range.start && !s.mutated(),
    ;

    /// Writes the [`Commit`] onto the device.
    fn commit(&mut self, commit: Commit) -> (res: Result<(), IoError>)
        ensures
            res is Ok ==> commit.start()@ + commit.bytes().len() <= old(self).contents().len() && final(self).contents() == write_bytes(old(self).contents(), commit.start()@ as int, commit.bytes()),
            res is Err ==> final(self).contents() == old(self).contents(),
    ;

    /// Writes the given bytes on the device starting at the address `starting_addr`.
    ///
    /// Fails with [`IoError::InvalidInput`] if the end of the write does not fit on 64 bits, and with the error of
    /// [`slice`](Device::slice) or [`commit`](Device::commit) otherwise.
    fn write_to_bytes(&mut self, starting_addr: Address, obj_bytes: &[u8]) -> (res: Result<(), IoError>)
        ensures
            res is Ok ==> final(self).contents() == write_bytes(
                old(self).contents(),
                starting_addr@ as int,
                obj_bytes@,
            ),
            !fits_u64(starting_addr@ + obj_bytes@.len()) ==> res == Err::<(), IoError>(IoError::InvalidInput),
    {
        let length = obj_bytes.len();
        let end = match Address::forward_checked(starting_addr, length) {
            Some(end) => end,
            None => return Err(IoError::InvalidInput),
        };
        let mut device_slice = match self.slice(starting_addr..end) {
            Ok(s) => s,
            Err(e) => return Err(e),
        };
        device_slice.write_at(0, obj_bytes);
        let ghost before = self.contents();
        let commit = device_slice.commit();
        let res = self.commit(commit);
        proof {
            if res is Ok {
                assert(write_bytes(device_slice.bytes(), 0, obj_bytes@) =~= obj_bytes@);
            }
        }
        res
    }

    /// Returns the current [`Timespec`] if the device is able to, `None` otherwise.
    fn now(&mut self) -> (res: Option<Timespec>)
        ensures
            final(self).contents() == old(self).contents(),
        default_ensures
            res is None,
    {
        None
    }
}

/// Wrapper structure to use a vector of bytes as a device.
#[derive(Debug, Clone, Default)]
pub struct Wrapper<T>(T);

impl<T> Wrapper<T> {
    /// The wrapped storage.
    pub closed spec fn inner(&self) -> T {
        self.0
    }

    /// Wraps the given storage.
    pub fn new(inner: T) -> (res: Self)
        ensures
            res.inner() == inner,
    {
        Wrapper(inner)
    }

    /// Returns the wrapped storage.
    pub fn into_inner(self) -> (res: T)
        ensures
            res == self.inner(),
    {
        self.0
    }
}

impl Wrapper<Vec<u8>> {
    /// Returns the bytes of the device.
    pub fn as_bytes(&self) -> (res: &[u8])
        ensures
            res@ == self.contents(),
    {
        self.0.as_slice()
    }
}

/// The bytes held by a vector device are the vector's.
pub proof fn lemma_wrapper_contents(w: Wrapper<Vec<u8>>)
    ensures
        w.contents() == w.inner()@,
{
}

impl Device for Wrapper<Vec<u8>> {
    closed spec fn contents(&self) -> Seq<u8> {
        self.0@
    }

    fn size(&mut self) -> (res: Size) {
        Size(self.0.len() as u64)
    }

    /// Fails with [`IoError::InvalidInput`] exactly when the range ends past the end of the device.
    fn slice(&mut self, addr_range: core::ops::Range<Address>) -> (res: Result<Slice, IoError>)
        ensures
            addr_range.end@ <= old(self).contents().len() <==> res is Ok,
            res is Err ==> res == Err::<Slice, IoError>(IoError::InvalidInput),
    {
        let start = addr_range.start.index();
        let end = addr_range.end.index();
        if end <= self.0.len() as u64 {
            let bytes = slice_subrange(self.0.as_slice(), start as usize, end as usize);
            Ok(Slice::new(bytes, addr_range.start))
        } else {
            Err(IoError::InvalidInput)
        }
    }

    /// Fails with [`IoError::InvalidInput`] exactly when the commit ends past the end of the device.
    fn commit(&mut self, commit: Commit) -> (res: Result<(), IoError>)
        ensures
            commit.start()@ + commit.bytes().len() <= old(self).contents().len() <==> res is Ok,
            res is Err ==> res == Err::<(), IoError>(IoError::InvalidInput),
    {
        let addr_start = commit.addr().index();
        let bytes = commit.as_bytes();
        let len = self.0.len();
        if addr_start > len as u64 || bytes.len() > len - addr_start as usize {
            return Err(IoError::InvalidInput);
        }
        let start = addr_start as usize;
        let mut i: usize = 0;
        while i < bytes.len()
            invariant
                start + bytes@.len() <= len,
                len == old(self).contents().len(),
                bytes@ == commit.bytes(),
                start == commit.start()@,
                i <= bytes@.len(),
                self.0@.len() == len,
                forall|j: int| 0 <= j < start ==> self.0@[j] == old(self).contents()[j],
                forall|j: int| start <= j < start + i ==> self.0@[j] == bytes@[j - start],
                forall|j: int| start + i <= j < len ==> self.0@[j] == old(self).contents()[j],
            decreases bytes@.len() - i,
        {
            self.0.set(start + i, bytes[i]);
            i = i + 1;
        }
        assert(self.0@ =~= write_bytes(old(self).contents(), start as int, bytes@));
        Ok(())
    }
}

/// Reading back a range just written gives the written bytes.
pub proof fn lemma_read_after_write(s: Seq<u8>, addr: int, b: Seq<u8>)
    requires
        0 <= addr,
        addr + b.len() <= s.len(),
    ensures
        write_bytes(s, addr, b).len() == s.len(),
        write_bytes(s, addr, b).subrange(addr, addr + b.len()) == b,
{
    assert(write_bytes(s, addr, b).subrange(addr, addr + b.len()) =~= b);
}

/// A write leaves the bytes outside of its range untouched.
pub proof fn lemma_write_preserves_outside(s: Seq<u8>, addr: int, b: Seq<u8>, i: int)
    requires
        0 <= addr,
        addr + b.len() <= s.len(),
        0 <= i < s.len(),
        !(addr <= i < addr + b.len()),
    ensures
        write_bytes(s, addr, b)[i] == s[i],
{
}

/// Writing back the bytes a range already holds changes nothing: committing an unmodified slice is a no-op.
pub proof fn lemma_write_same_bytes(s: Seq<u8>, addr: int, n: int)
    requires
        0 <= addr,
        0 <= n,
        addr + n <= s.len(),
    ensures
        write_bytes(s, addr, s.subrange(addr, addr + n)) == s,
{
    assert(write_bytes(s, addr, s.subrange(addr, addr + n)) =~= s);
}

} // verus!
