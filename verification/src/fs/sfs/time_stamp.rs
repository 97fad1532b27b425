//! SFS time stamps: signed 64-bit counts of 1/65536ths of a second since the Epoch.

use vstd::prelude::*;

use crate::error::{Error, FsError, IoError};
use crate::fs::sfs::error::SfsError;
use crate::fs::types::{Time, Timespec, fits_i64};

verus! {

/// Number of time stamp units in a second.
pub const UNITS_PER_SEC: i64 = 65536;

/// A SFS time stamp: the number of 1/65536ths of a second since the beginning of the 1st of January 1970 (UTC).
#[derive(Debug, Clone, Copy, PartialEq, Eq, Structural, PartialOrd, Ord)]
pub struct TimeStamp(pub i64);

impl TimeStamp {
    /// Returns the raw number of 1/65536ths of a second.
    pub fn value(&self) -> (res: i64)
        ensures
            res == self.0,
    {
        self.0
    }

    /// Returns the [`TimeStamp`] of now.
    ///
    /// Fails with [`SfsError::TimeStampOutOfBounds`] when the current time cannot be represented, and with an
    /// I/O error when the clock reads a time before the Epoch or too far after it to fit a timespec.
    pub fn now() -> (res: Result<Self, Error<SfsError>>)
        ensures
            res matches Ok(t) ==> t.0 >= 0 && exists|ts: Timespec|
                ts.is_canonical() && ts.tv_sec.0 >= 0 && #[trigger] timespec_to_timestamp_value(ts) == t.0,
            res matches Err(e) ==> e == Error::<SfsError>::IO(IoError::Other) || (e matches Error::Fs(
                FsError::Implementation(SfsError::TimeStampOutOfBounds(ts)),
            ) && !timespec_representable(ts) && ts.is_canonical() && ts.tv_sec.0 >= 0),
    {
        match Timespec::now() {
            Some(ts) => timespec_to_timestamp(ts),
            None => Err(Error::IO(IoError::Other)),
        }
    }
}

impl core::ops::Deref for TimeStamp {
    type Target = i64;

    fn deref(&self) -> (res: &i64)
        ensures
            *res == self.0,
    {
        &self.0
    }
}

impl From<i64> for TimeStamp {
    fn from(value: i64) -> (res: TimeStamp) {
        TimeStamp(value)
    }
}

impl vstd::std_specs::convert::FromSpecImpl<i64> for TimeStamp {
    open spec fn obeys_from_spec() -> bool {
        true
    }

    open spec fn from_spec(v: i64) -> TimeStamp {
        TimeStamp(v)
    }
}

impl From<TimeStamp> for i64 {
    fn from(value: TimeStamp) -> (res: i64) {
        value.0
    }
}

impl vstd::std_specs::convert::FromSpecImpl<TimeStamp> for i64 {
    open spec fn obeys_from_spec() -> bool {
        true
    }

    open spec fn from_spec(v: TimeStamp) -> i64 {
        v.0
    }
}

impl core::ops::Add<i64> for TimeStamp {
    type Output = TimeStamp;

    /// Adds the given number of units; the sum must fit on an `i64`.
    fn add(self, rhs: i64) -> (res: TimeStamp) {
        TimeStamp(self.0 + rhs)
    }
}

impl vstd::std_specs::ops::AddSpecImpl<i64> for TimeStamp {
    open spec fn obeys_add_spec() -> bool {
        true
    }

    open spec fn add_req(self, rhs: i64) -> bool {
        fits_i64(self.0 + rhs)
    }

    open spec fn add_spec(self, rhs: i64) -> TimeStamp {
        TimeStamp((self.0 + rhs) as i64)
    }
}

impl core::ops::Sub<i64> for TimeStamp {
    type Output = TimeStamp;

    /// Subtracts the given number of units; the difference must fit on an `i64`.
    fn sub(self, rhs: i64) -> (res: TimeStamp) {
        TimeStamp(self.0 - rhs)
    }
}

impl vstd::std_specs::ops::SubSpecImpl<i64> for TimeStamp {
    open spec fn obeys_sub_spec() -> bool {
        true
    }

    open spec fn sub_req(self, rhs: i64) -> bool {
        fits_i64(self.0 - rhs)
    }

    open spec fn sub_spec(self, rhs: i64) -> TimeStamp {
        TimeStamp((self.0 - rhs) as i64)
    }
}

/// Absolute value of an integer.
pub open spec fn abs(v: int) -> nat {
    if v >= 0 { v as nat } else { (-v) as nat }
}

/// Division rounding toward zero, as Rust's `/` does on signed integers.
pub open spec fn div_toward_zero(v: int, d: int) -> int {
    if v >= 0 { v / d } else { -((-v) / d) }
}

/// The timespec of a time stamp: whole seconds rounded toward zero, and the nanoseconds of the remaining
/// fraction of a second (taken on the absolute value), rounded down.
pub open spec fn timestamp_to_timespec_spec(ts: int) -> Timespec {
    Timespec {
        tv_sec: Time(div_toward_zero(ts, 65536) as i64),
        tv_nsec: (((abs(ts) % 65536) * 1_000_000_000) / 65536) as u32,
    }
}

/// The time stamp value of a timespec: seconds times 65536 plus the nanoseconds scaled down and rounded down.
pub open spec fn timespec_to_timestamp_value(ts: Timespec) -> int {
    ts.tv_sec.0 * 65536 + (ts.tv_nsec * 65536) / 1_000_000_000
}

/// Whether a timespec can be represented as a time stamp.
pub open spec fn timespec_representable(ts: Timespec) -> bool {
    fits_i64(ts.tv_sec.0 * 65536) && fits_i64(timespec_to_timestamp_value(ts))
}

/// Converts a timespec into a time stamp.
///
/// Fails with [`SfsError::TimeStampOutOfBounds`] exactly when the result does not fit on 64 bits.
pub fn timespec_to_timestamp(value: Timespec) -> (res: Result<TimeStamp, Error<SfsError>>)
    ensures
        timespec_representable(value) ==> res == Ok::<TimeStamp, Error<SfsError>>(
            TimeStamp(timespec_to_timestamp_value(value) as i64),
        ),
        !timespec_representable(value) ==> res == Err::<TimeStamp, Error<SfsError>>(
            Error::Fs(FsError::Implementation(SfsError::TimeStampOutOfBounds(value))),
        ),
{
    let frac: i64 = ((value.tv_nsec as i64) * UNITS_PER_SEC) / 1_000_000_000;
    match value.tv_sec.0.checked_mul(UNITS_PER_SEC) {
        Some(secs) => match secs.checked_add(frac) {
            Some(total) => Ok(TimeStamp(total)),
            None => Err(Error::Fs(FsError::Implementation(SfsError::TimeStampOutOfBounds(value)))),
        },
        None => Err(Error::Fs(FsError::Implementation(SfsError::TimeStampOutOfBounds(value)))),
    }
}

impl TryFrom<Timespec> for TimeStamp {
    type Error = Error<SfsError>;

    fn try_from(value: Timespec) -> (res: Result<TimeStamp, Error<SfsError>>) {
        timespec_to_timestamp(value)
    }
}

impl vstd::std_specs::convert::TryFromSpecImpl<Timespec> for TimeStamp {
    open spec fn obeys_try_from_spec() -> bool {
        true
    }

    open spec fn try_from_spec(v: Timespec) -> Result<TimeStamp, Error<SfsError>> {
        if timespec_representable(v) {
            Ok(TimeStamp(timespec_to_timestamp_value(v) as i64))
        } else {
            Err(Error::Fs(FsError::Implementation(SfsError::TimeStampOutOfBounds(v))))
        }
    }
}

/// Converts a time stamp into a timespec.
pub fn timestamp_to_timespec(value: TimeStamp) -> (res: Timespec)
    ensures
        res == timestamp_to_timespec_spec(value.0 as int),
        res.is_canonical(),
{
    let v = value.0;
    let a: u64 = if v >= 0 {
        v as u64
    } else if v == i64::MIN {
        0x8000_0000_0000_0000u64
    } else {
        (-v) as u64
    };
    let q: i64 = (a / 65536) as i64;
    let secs: i64 = if v >= 0 { q } else { -q };
    let rem: u64 = a % 65536;
    let nsec: u64 = (rem * 1_000_000_000) / 65536;
    assert(nsec < 1_000_000_000) by (nonlinear_arith)
        requires
            rem < 65536,
            nsec == (rem * 1_000_000_000) / 65536,
    ;
    Timespec { tv_sec: Time(secs), tv_nsec: nsec as u32 }
}

impl From<TimeStamp> for Timespec {
    fn from(value: TimeStamp) -> (res: Timespec) {
        timestamp_to_timespec(value)
    }
}

impl vstd::std_specs::convert::FromSpecImpl<TimeStamp> for Timespec {
    open spec fn obeys_from_spec() -> bool {
        true
    }

    open spec fn from_spec(v: TimeStamp) -> Timespec {
        timestamp_to_timespec_spec(v.0 as int)
    }
}

/// Converting a non-negative time stamp into a timespec and back loses less than one unit: the result is the
/// starting time stamp or the one just before it.
pub proof fn lemma_timestamp_roundtrip(ts: i64)
    requires
        ts >= 0,
    ensures
        timespec_representable(timestamp_to_timespec_spec(ts as int)),
        ts - 1 <= timespec_to_timestamp_value(timestamp_to_timespec_spec(ts as int)) <= ts,
{
    let q = ts / 65536;
    let r = ts % 65536;
    let n = (r * 1_000_000_000) / 65536;
    let back = (n * 65536) / 1_000_000_000;
    assert(ts == q * 65536 + r);
    assert(r - 1 <= back <= r) by (nonlinear_arith)
        requires
            0 <= r < 65536,
            n == (r * 1_000_000_000) / 65536,
            back == (n * 65536) / 1_000_000_000,
    ;
    assert(0 <= q * 65536 <= ts);
}

/// Converting a canonical, non-negative timespec into a time stamp and back loses less than one unit of
/// 1/65536 s: the result lies at most 15259 ns before the starting instant, and never after it.
pub proof fn lemma_timespec_roundtrip(ts: Timespec)
    requires
        ts.tv_sec.0 >= 0,
        ts.is_canonical(),
        timespec_representable(ts),
    ensures
        ts.nanos() - 15259 <= timestamp_to_timespec_spec(timespec_to_timestamp_value(ts)).nanos() <= ts.nanos(),
{
    let s = ts.tv_sec.0 as int;
    let n = ts.tv_nsec as int;
    let f = (n * 65536) / 1_000_000_000;
    let v = timespec_to_timestamp_value(ts);
    assert(0 <= f < 65536) by (nonlinear_arith)
        requires
            0 <= n < 1_000_000_000,
            f == (n * 65536) / 1_000_000_000,
    ;
    assert(v == s * 65536 + f);
    assert(v >= 0) by (nonlinear_arith)
        requires
            s >= 0,
            f >= 0,
            v == s * 65536 + f,
    ;
    assert(v / 65536 == s && v % 65536 == f) by {
        vstd::arithmetic::div_mod::lemma_fundamental_div_mod_converse(v, 65536, s, f);
    }
    let back = (f * 1_000_000_000) / 65536;
    assert(n - 15259 <= back <= n) by (nonlinear_arith)
        requires
            0 <= n < 1_000_000_000,
            f == (n * 65536) / 1_000_000_000,
            back == (f * 1_000_000_000) / 65536,
    ;
    let t2 = timestamp_to_timespec_spec(v);
    assert(t2.tv_sec.0 == s);
    assert(t2.tv_nsec == back);
}

} // verus!
