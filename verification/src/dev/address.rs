//! General description of addresses in a device.

use vstd::prelude::*;

verus! {

/// Address of a byte in a device: its offset from the start of the device.
#[derive(Debug, Clone, Copy, PartialEq, Eq, Structural, PartialOrd, Ord)]
pub struct Address(u64);

impl View for Address {
    type V = u64;

    closed spec fn view(&self) -> u64 {
        self.0
    }
}

/// Whether an integer fits on a `u64`.
pub open spec fn fits_u64(x: int) -> bool {
    0 <= x <= u64::MAX
}

impl Address {
    /// Returns a new [`Address`] from its index.
    pub fn new(index: u64) -> (res: Self)
        ensures
            res@ == index,
    {
        Address(index)
    }

    /// Returns the index of this address, which corresponds to its offset from the start of the device.
    pub fn index(&self) -> (res: u64)
        ensures
            res == self@,
    {
        self.0
    }

    /// Returns the address `count` bytes after `start`, or `None` if it does not fit on 64 bits.
    pub fn forward_checked(start: Address, count: usize) -> (res: Option<Address>)
        ensures
            fits_u64(start@ + count) ==> (res matches Some(a) && a@ == start@ + count),
            !fits_u64(start@ + count) ==> res is None,
    {
        match start.0.checked_add(count as u64) {
            Some(v) => Some(Address(v)),
            None => None,
        }
    }

    /// Returns the address `count` bytes before `start`, or `None` if it would be negative.
    pub fn backward_checked(start: Address, count: usize) -> (res: Option<Address>)
        ensures
            start@ >= count ==> (res matches Some(a) && a@ == start@ - count),
            start@ < count ==> res is None,
    {
        if (count as u64) <= start.0 {
            Some(Address(start.0 - count as u64))
        } else {
            None
        }
    }
}

/// Two addresses are equal exactly when their indices are.
pub proof fn lemma_address_view_injective(a: Address, b: Address)
    ensures
        a@ == b@ <==> a == b,
{
}

impl From<u64> for Address {
    fn from(index: u64) -> (res: Address) {
        Address(index)
    }
}

impl vstd::std_specs::convert::FromSpecImpl<u64> for Address {
    open spec fn obeys_from_spec() -> bool {
        true
    }

    closed spec fn from_spec(v: u64) -> Address {
        Address(v)
    }
}

impl From<Address> for u64 {
    fn from(value: Address) -> (res: u64) {
        value.0
    }
}

impl vstd::std_specs::convert::FromSpecImpl<Address> for u64 {
    open spec fn obeys_from_spec() -> bool {
        true
    }

    open spec fn from_spec(v: Address) -> u64 {
        v@
    }
}

impl From<u32> for Address {
    fn from(value: u32) -> (res: Address) {
        Address(value as u64)
    }
}

impl vstd::std_specs::convert::FromSpecImpl<u32> for Address {
    open spec fn obeys_from_spec() -> bool {
        true
    }

    closed spec fn from_spec(v: u32) -> Address {
        Address(v as u64)
    }
}

impl From<usize> for Address {
    fn from(value: usize) -> (res: Address) {
        Address(crate::arch::usize_to_u64(value))
    }
}

impl vstd::std_specs::convert::FromSpecImpl<usize> for Address {
    open spec fn obeys_from_spec() -> bool {
        true
    }

    closed spec fn from_spec(v: usize) -> Address {
        Address(v as u64)
    }
}

/// Reading back the index of an address built from `index` gives `index`, for every source integer type.
pub proof fn lemma_address_from_index(index: u64, small: u32, size: usize)
    ensures
        <Address as vstd::std_specs::convert::FromSpec<u64>>::from_spec(index)@ == index,
        <Address as vstd::std_specs::convert::FromSpec<u32>>::from_spec(small)@ == small,
        <Address as vstd::std_specs::convert::FromSpec<usize>>::from_spec(size)@ == size,
{
}

impl core::ops::Add<u64> for Address {
    type Output = Address;

    /// The address `rhs` bytes further; it must fit on 64 bits.
    fn add(self, rhs: u64) -> (res: Address) {
        Address(self.0 + rhs)
    }
}

impl vstd::std_specs::ops::AddSpecImpl<u64> for Address {
    open spec fn obeys_add_spec() -> bool {
        true
    }

    open spec fn add_req(self, rhs: u64) -> bool {
        fits_u64(self@ + rhs)
    }

    closed spec fn add_spec(self, rhs: u64) -> Address {
        Address((self.0 + rhs) as u64)
    }
}

impl core::ops::Add for Address {
    type Output = Address;

    /// The sum of two addresses; it must fit on 64 bits.
    fn add(self, rhs: Address) -> (res: Address) {
        Address(self.0 + rhs.0)
    }
}

impl vstd::std_specs::ops::AddSpecImpl for Address {
    open spec fn obeys_add_spec() -> bool {
        true
    }

    open spec fn add_req(self, rhs: Address) -> bool {
        fits_u64(self@ + rhs@)
    }

    closed spec fn add_spec(self, rhs: Address) -> Address {
        Address((self.0 + rhs.0) as u64)
    }
}

impl core::ops::Sub<u64> for Address {
    type Output = Address;

    /// The address `rhs` bytes before; it must not be negative.
    fn sub(self, rhs: u64) -> (res: Address) {
        Address(self.0 - rhs)
    }
}

impl vstd::std_specs::ops::SubSpecImpl<u64> for Address {
    open spec fn obeys_sub_spec() -> bool {
        true
    }

    open spec fn sub_req(self, rhs: u64) -> bool {
        self@ >= rhs
    }

    closed spec fn sub_spec(self, rhs: u64) -> Address {
        Address((self.0 - rhs) as u64)
    }
}

impl core::ops::Sub for Address {
    type Output = Address;

    /// The distance between two addresses; it must not be negative.
    fn sub(self, rhs: Address) -> (res: Address) {
        Address(self.0 - rhs.0)
    }
}

impl vstd::std_specs::ops::SubSpecImpl for Address {
    open spec fn obeys_sub_spec() -> bool {
        true
    }

    open spec fn sub_req(self, rhs: Address) -> bool {
        self@ >= rhs@
    }

    closed spec fn sub_spec(self, rhs: Address) -> Address {
        Address((self.0 - rhs.0) as u64)
    }
}

impl core::ops::Mul<u64> for Address {
    type Output = Address;

    /// The address scaled by `rhs`; it must fit on 64 bits.
    fn mul(self, rhs: u64) -> (res: Address) {
        Address(self.0 * rhs)
    }
}

impl vstd::std_specs::ops::MulSpecImpl<u64> for Address {
    open spec fn obeys_mul_spec() -> bool {
        true
    }

    open spec fn mul_req(self, rhs: u64) -> bool {
        fits_u64(self@ * rhs)
    }

    closed spec fn mul_spec(self, rhs: u64) -> Address {
        Address((self.0 * rhs) as u64)
    }
}

/// The arithmetic operators on addresses compute on their indices.
pub proof fn lemma_address_ops(a: Address, b: Address, n: u64)
    ensures
        fits_u64(a@ + n) ==> <Address as vstd::std_specs::ops::AddSpec<u64>>::add_spec(a, n)@ == a@ + n,
        fits_u64(a@ + b@) ==> <Address as vstd::std_specs::ops::AddSpec>::add_spec(a, b)@ == a@ + b@,
        a@ >= n ==> <Address as vstd::std_specs::ops::SubSpec<u64>>::sub_spec(a, n)@ == a@ - n,
        a@ >= b@ ==> <Address as vstd::std_specs::ops::SubSpec>::sub_spec(a, b)@ == a@ - b@,
        fits_u64(a@ * n) ==> <Address as vstd::std_specs::ops::MulSpec<u64>>::mul_spec(a, n)@ == a@ * n,
{
}

} // verus!
