//! Definitions of the POSIX `<sys/types.h>` types needed by the filesystems.

use vstd::prelude::*;

verus! {

/// Used for device IDs.
#[derive(Debug, Clone, Copy, Default)]
pub struct Dev(pub u32);

/// Used for file serial numbers.
#[derive(Debug, Clone, Copy)]
pub struct Ino(pub u64);

/// Used for some file attributes.
#[derive(Debug, Clone, Copy)]
pub struct Mode(pub u16);

/// Used for link counts.
#[derive(Debug, Clone, Copy)]
pub struct Nlink(pub u32);

/// Used for user IDs.
#[derive(Debug, Clone, Copy, Default)]
pub struct Uid(pub u32);

/// Used for group IDs.
#[derive(Debug, Clone, Copy, Default)]
pub struct Gid(pub u32);

/// Used for file sizes.
#[derive(Debug, Clone, Copy, Default)]
pub struct Off(pub isize);

/// Used for block sizes.
#[derive(Debug, Clone, Copy)]
pub struct Blksize(pub isize);

/// Used for file block counts.
#[derive(Debug, Clone, Copy)]
pub struct Blkcnt(pub i64);

/// Number of nanoseconds in a second.
pub const NANOS_PER_SEC: u32 = 1_000_000_000;

/// Used for time in seconds.
#[derive(Debug, Clone, Copy, PartialEq, Eq, Structural, PartialOrd, Ord)]
pub struct Time(pub i64);

/// Whether an integer fits on an `i64`.
pub open spec fn fits_i64(x: int) -> bool {
    i64::MIN <= x <= i64::MAX
}

impl core::ops::Add for Time {
    type Output = Time;

    /// Sums the two times; the sum must fit on an `i64`.
    fn add(self, rhs: Time) -> (res: Time) {
        Time(self.0 + rhs.0)
    }
}

impl vstd::std_specs::ops::AddSpecImpl for Time {
    open spec fn obeys_add_spec() -> bool {
        true
    }

    open spec fn add_req(self, rhs: Time) -> bool {
        fits_i64(self.0 + rhs.0)
    }

    open spec fn add_spec(self, rhs: Time) -> Time {
        Time((self.0 + rhs.0) as i64)
    }
}

impl core::ops::Add<i64> for Time {
    type Output = Time;

    /// Adds the given number of seconds; the sum must fit on an `i64`.
    fn add(self, rhs: i64) -> (res: Time) {
        Time(self.0 + rhs)
    }
}

impl vstd::std_specs::ops::AddSpecImpl<i64> for Time {
    open spec fn obeys_add_spec() -> bool {
        true
    }

    open spec fn add_req(self, rhs: i64) -> bool {
        fits_i64(self.0 + rhs)
    }

    open spec fn add_spec(self, rhs: i64) -> Time {
        Time((self.0 + rhs) as i64)
    }
}

impl core::ops::Sub for Time {
    type Output = Time;

    /// Subtracts the two times; the difference must fit on an `i64`.
    fn sub(self, rhs: Time) -> (res: Time) {
        Time(self.0 - rhs.0)
    }
}

impl vstd::std_specs::ops::SubSpecImpl for Time {
    open spec fn obeys_sub_spec() -> bool {
        true
    }

    open spec fn sub_req(self, rhs: Time) -> bool {
        fits_i64(self.0 - rhs.0)
    }

    open spec fn sub_spec(self, rhs: Time) -> Time {
        Time((self.0 - rhs.0) as i64)
    }
}

impl core::ops::Sub<i64> for Time {
    type Output = Time;

    /// Subtracts the given number of seconds; the difference must fit on an `i64`.
    fn sub(self, rhs: i64) -> (res: Time) {
        Time(self.0 - rhs)
    }
}

impl vstd::std_specs::ops::SubSpecImpl<i64> for Time {
    open spec fn obeys_sub_spec() -> bool {
        true
    }

    open spec fn sub_req(self, rhs: i64) -> bool {
        fits_i64(self.0 - rhs)
    }

    open spec fn sub_spec(self, rhs: i64) -> Time {
        Time((self.0 - rhs) as i64)
    }
}

impl core::ops::AddAssign for Time {
    /// Adds `rhs` in place, wrapping around on overflow as a release build does.
    fn add_assign(&mut self, rhs: Time)
        ensures
            final(self).0 == old(self).0.wrapping_add(rhs.0),
    {
        self.0 = self.0.wrapping_add(rhs.0);
    }
}

impl core::ops::AddAssign<i64> for Time {
    /// Adds `rhs` seconds in place, wrapping around on overflow as a release build does.
    fn add_assign(&mut self, rhs: i64)
        ensures
            final(self).0 == old(self).0.wrapping_add(rhs),
    {
        self.0 = self.0.wrapping_add(rhs);
    }
}

impl core::ops::SubAssign for Time {
    /// Subtracts `rhs` in place, wrapping around on overflow as a release build does.
    fn sub_assign(&mut self, rhs: Time)
        ensures
            final(self).0 == old(self).0.wrapping_sub(rhs.0),
    {
        self.0 = self.0.wrapping_sub(rhs.0);
    }
}

impl core::ops::SubAssign<i64> for Time {
    /// Subtracts `rhs` seconds in place, wrapping around on overflow as a release build does.
    fn sub_assign(&mut self, rhs: i64)
        ensures
            final(self).0 == old(self).0.wrapping_sub(rhs),
    {
        self.0 = self.0.wrapping_sub(rhs);
    }
}

/// Used for precise instants: seconds since the Epoch, completed with nanoseconds.
#[derive(Debug, Clone, Copy, PartialEq, Eq, Structural, PartialOrd, Ord)]
pub struct Timespec {
    /// Whole seconds.
    pub tv_sec: Time,
    /// Nanoseconds, in `[0, 999999999]` for a canonical value.
    pub tv_nsec: u32,
}

impl Timespec {
    /// The instant as a number of nanoseconds since the Epoch.
    pub open spec fn nanos(self) -> int {
        self.tv_sec.0 * 1_000_000_000 + self.tv_nsec
    }

    /// Whether the nanoseconds are below one second.
    pub open spec fn is_canonical(self) -> bool {
        self.tv_nsec < 1_000_000_000
    }

    /// The value computed by [`canonical`](Timespec::canonical).
    pub open spec fn canonical_spec(self) -> Timespec {
        Timespec {
            tv_sec: Time((self.tv_sec.0 + self.tv_nsec / 1_000_000_000) as i64),
            tv_nsec: (self.tv_nsec % 1_000_000_000) as u32,
        }
    }

    /// Returns the canonical form of the represented time: the nanoseconds are brought below one second and the
    /// overflowing seconds are added to the whole seconds.
    pub fn canonical(self) -> (res: Self)
        requires
            fits_i64(self.tv_sec.0 + self.tv_nsec / 1_000_000_000),
        ensures
            res == self.canonical_spec(),
            res.is_canonical(),
            res.nanos() == self.nanos(),
    {
        let carry: i64 = (self.tv_nsec / NANOS_PER_SEC) as i64;
        Timespec { tv_sec: Time(self.tv_sec.0 + carry), tv_nsec: self.tv_nsec % NANOS_PER_SEC }
    }

    /// Builds the instant of a duration since the Epoch given in whole seconds and sub-second nanoseconds.
    ///
    /// Returns `None` when the seconds cannot fit on 63 bits.
    pub fn from_duration(secs: u64, subsec_nanos: u32) -> (res: Option<Self>)
        requires
            subsec_nanos < 1_000_000_000,
        ensures
            secs <= i64::MAX ==> res == Some(Timespec { tv_sec: Time(secs as i64), tv_nsec: subsec_nanos }),
            secs > i64::MAX ==> res is None,
    {
        if secs <= i64::MAX as u64 {
            Some(Timespec { tv_sec: Time(secs as i64), tv_nsec: subsec_nanos })
        } else {
            None
        }
    }

    /// Returns the [`Timespec`] of now, read from the system clock.
    ///
    /// Returns `None` when the clock is before the Epoch or too far after it to fit on 63 bits.
    pub fn now() -> (res: Option<Self>)
        ensures
            res matches Some(t) ==> t.is_canonical() && t.tv_sec.0 >= 0,
    {
        match crate::clock::system_time_since_epoch() {
            Some((secs, nanos)) => Self::from_duration(secs, nanos),
            None => None,
        }
    }
}

/// The value of `a + b` for timespecs.
pub open spec fn timespec_add_spec(a: Timespec, b: Timespec) -> Timespec {
    Timespec {
        tv_sec: Time((a.tv_sec.0 + b.tv_sec.0 + (a.tv_nsec + b.tv_nsec) / 1_000_000_000) as i64),
        tv_nsec: ((a.tv_nsec + b.tv_nsec) % 1_000_000_000) as u32,
    }
}

/// The value of `a - b` for timespecs.
pub open spec fn timespec_sub_spec(a: Timespec, b: Timespec) -> Timespec {
    if a.tv_nsec >= b.tv_nsec {
        Timespec { tv_sec: Time((a.tv_sec.0 - b.tv_sec.0) as i64), tv_nsec: (a.tv_nsec - b.tv_nsec) as u32 }
    } else {
        Timespec {
            tv_sec: Time((a.tv_sec.0 - b.tv_sec.0 - 1) as i64),
            tv_nsec: (1_000_000_000 - (b.tv_nsec - a.tv_nsec)) as u32,
        }
    }
}

impl core::ops::Add for Timespec {
    type Output = Timespec;

    /// Sums the seconds together and the nanoseconds together, then carries the whole seconds out of the
    /// nanoseconds.
    fn add(self, rhs: Timespec) -> (res: Timespec) {
        let nsec_sum: u32 = self.tv_nsec + rhs.tv_nsec;
        let carry: i64 = (nsec_sum / NANOS_PER_SEC) as i64;
        Timespec { tv_sec: self.tv_sec + rhs.tv_sec + carry, tv_nsec: nsec_sum % NANOS_PER_SEC }
    }
}

impl vstd::std_specs::ops::AddSpecImpl for Timespec {
    open spec fn obeys_add_spec() -> bool {
        true
    }

    open spec fn add_req(self, rhs: Timespec) -> bool {
        &&& self.tv_nsec + rhs.tv_nsec <= u32::MAX
        &&& fits_i64(self.tv_sec.0 + rhs.tv_sec.0)
        &&& fits_i64(self.tv_sec.0 + rhs.tv_sec.0 + (self.tv_nsec + rhs.tv_nsec) / 1_000_000_000)
    }

    open spec fn add_spec(self, rhs: Timespec) -> Timespec {
        timespec_add_spec(self, rhs)
    }
}

impl core::ops::Add<Time> for Timespec {
    type Output = Timespec;

    /// Adds the given time to the seconds.
    fn add(self, rhs: Time) -> (res: Timespec) {
        self + Timespec { tv_sec: rhs, tv_nsec: 0 }
    }
}

impl vstd::std_specs::ops::AddSpecImpl<Time> for Timespec {
    open spec fn obeys_add_spec() -> bool {
        true
    }

    open spec fn add_req(self, rhs: Time) -> bool {
        &&& fits_i64(self.tv_sec.0 + rhs.0)
        &&& fits_i64(self.tv_sec.0 + rhs.0 + self.tv_nsec / 1_000_000_000)
    }

    open spec fn add_spec(self, rhs: Time) -> Timespec {
        timespec_add_spec(self, Timespec { tv_sec: rhs, tv_nsec: 0 })
    }
}

impl core::ops::Sub for Timespec {
    type Output = Timespec;

    /// Subtracts the seconds together and the nanoseconds together, borrowing one second when the nanoseconds of
    /// `rhs` are the larger, so that the nanoseconds stay non-negative.
    fn sub(self, rhs: Timespec) -> (res: Timespec) {
        let ge = self.tv_nsec >= rhs.tv_nsec;
        let borrow: i64 = if ge { 0 } else { 1 };
        Timespec {
            tv_sec: self.tv_sec - rhs.tv_sec - borrow,
            tv_nsec: if ge { self.tv_nsec - rhs.tv_nsec } else { NANOS_PER_SEC - (rhs.tv_nsec - self.tv_nsec) },
        }
    }
}

impl vstd::std_specs::ops::SubSpecImpl for Timespec {
    open spec fn obeys_sub_spec() -> bool {
        true
    }

    open spec fn sub_req(self, rhs: Timespec) -> bool {
        &&& fits_i64(self.tv_sec.0 - rhs.tv_sec.0)
        &&& fits_i64(self.tv_sec.0 - rhs.tv_sec.0 - (if self.tv_nsec >= rhs.tv_nsec { 0int } else { 1int }))
        &&& (self.tv_nsec < rhs.tv_nsec ==> rhs.tv_nsec - self.tv_nsec <= 1_000_000_000)
    }

    open spec fn sub_spec(self, rhs: Timespec) -> Timespec {
        timespec_sub_spec(self, rhs)
    }
}

impl core::ops::Sub<Time> for Timespec {
    type Output = Timespec;

    /// Subtracts the given time from the seconds.
    fn sub(self, rhs: Time) -> (res: Timespec) {
        self - Timespec { tv_sec: rhs, tv_nsec: 0 }
    }
}

impl vstd::std_specs::ops::SubSpecImpl<Time> for Timespec {
    open spec fn obeys_sub_spec() -> bool {
        true
    }

    open spec fn sub_req(self, rhs: Time) -> bool {
        fits_i64(self.tv_sec.0 - rhs.0)
    }

    open spec fn sub_spec(self, rhs: Time) -> Timespec {
        timespec_sub_spec(self, Timespec { tv_sec: rhs, tv_nsec: 0 })
    }
}

/// Two canonical timespecs denoting the same instant are equal.
pub proof fn lemma_canonical_nanos_injective(a: Timespec, b: Timespec)
    requires
        a.is_canonical(),
        b.is_canonical(),
        a.nanos() == b.nanos(),
    ensures
        a == b,
{
    let d = a.tv_sec.0 - b.tv_sec.0;
    assert(d * 1_000_000_000 == b.tv_nsec - a.tv_nsec);
    assert(d == 0) by (nonlinear_arith)
        requires
            d * 1_000_000_000 == b.tv_nsec - a.tv_nsec,
            0 <= a.tv_nsec < 1_000_000_000,
            0 <= b.tv_nsec < 1_000_000_000,
    ;
}

/// Adding timespecs adds the instants they denote, and the sum of canonical timespecs is canonical.
pub proof fn lemma_timespec_add_nanos(a: Timespec, b: Timespec)
    requires
        a.tv_nsec + b.tv_nsec <= u32::MAX,
        fits_i64(a.tv_sec.0 + b.tv_sec.0 + (a.tv_nsec + b.tv_nsec) / 1_000_000_000),
    ensures
        timespec_add_spec(a, b).nanos() == a.nanos() + b.nanos(),
        timespec_add_spec(a, b).is_canonical(),
{
    let s = a.tv_nsec + b.tv_nsec;
    assert(s == (s / 1_000_000_000) * 1_000_000_000 + s % 1_000_000_000);
}

/// Subtracting canonical timespecs subtracts the instants they denote, and gives a canonical timespec.
pub proof fn lemma_timespec_sub_nanos(a: Timespec, b: Timespec)
    requires
        a.is_canonical(),
        b.is_canonical(),
        fits_i64(a.tv_sec.0 - b.tv_sec.0 - (if a.tv_nsec >= b.tv_nsec { 0int } else { 1int })),
    ensures
        timespec_sub_spec(a, b).nanos() == a.nanos() - b.nanos(),
        timespec_sub_spec(a, b).is_canonical(),
{
}

/// Subtracting what was added gives back the canonical timespec it started from: `(a + b) - b == a`.
pub proof fn lemma_timespec_add_then_sub(a: Timespec, b: Timespec)
    requires
        a.is_canonical(),
        b.is_canonical(),
        fits_i64(a.tv_sec.0 + b.tv_sec.0),
        fits_i64(a.tv_sec.0 + b.tv_sec.0 + 1),
    ensures
        timespec_sub_spec(timespec_add_spec(a, b), b) == a,
{
    lemma_timespec_add_nanos(a, b);
    let c = timespec_add_spec(a, b);
    lemma_timespec_sub_nanos(c, b);
    lemma_canonical_nanos_injective(timespec_sub_spec(c, b), a);
}

} // verus!
