//! Time primitives: monotonic `Ktime` values and `Timespec` timestamps.

use vstd::prelude::*;
use crate::error::Error;

verus! {

/// The number of nanoseconds per millisecond.
pub const NSEC_PER_MSEC: i64 = 1000000;

/// The absolute value of `a`.
pub open spec fn abs(a: int) -> int {
    if a >= 0 {
        a
    } else {
        -a
    }
}

/// The quotient of `a / b` rounded toward zero, as Rust's `/` computes it
/// on signed integers.
pub open spec fn div_toward_zero(a: int, b: int) -> int
    recommends
        b != 0,
{
    if (a >= 0) == (b > 0) {
        abs(a) / abs(b)
    } else {
        -(abs(a) / abs(b))
    }
}

/// A monotonic time value, counted in nanoseconds.
#[derive(Copy, Clone)]
pub struct Ktime {
    inner: i64,
}

impl Ktime {
    /// The number of nanoseconds this value holds.
    pub closed spec fn nanos(self) -> int {
        self.inner as int
    }

    /// Creates a `Ktime` from a raw nanosecond count.
    pub fn from_raw(inner: i64) -> (k: Ktime)
        ensures
            k.nanos() == inner,
    {
        Ktime { inner }
    }

    /// Divides the number of nanoseconds by `div`, rounding toward zero.
    fn divns_constant(self, div: i64) -> (q: i64)
        requires
            div != 0,
            !(self.nanos() == i64::MIN && div == -1),
        ensures
            q == div_toward_zero(self.nanos(), div as int),
    {
        let n = self.to_ns();
        if div > 0 {
            n / div
        } else if div == i64::MIN {
            // every other value is smaller in magnitude than the divisor
            proof {
                let a = abs(n as int);
                assert(0 <= a <= 0x8000_0000_0000_0000);
                assert(a / 0x8000_0000_0000_0000 == if a == 0x8000_0000_0000_0000 {
                    1int
                } else {
                    0int
                }) by (nonlinear_arith)
                    requires
                        0 <= a <= 0x8000_0000_0000_0000,
                ;
            }
            if n == i64::MIN {
                1
            } else {
                0
            }
        } else {
            // a negative divisor flips the sign of the truncated quotient
            let d = -div;
            let q = n / d;
            proof {
                let a = abs(n as int);
                assert(q == if n >= 0 { a / (d as int) } else { -(a / (d as int)) });
                assert(a / (d as int) <= a) by (nonlinear_arith)
                    requires
                        a >= 0,
                        d >= 1,
                ;
                if d >= 2 {
                    assert(a / (d as int) < 0x8000_0000_0000_0000) by (nonlinear_arith)
                        requires
                            0 <= a <= 0x8000_0000_0000_0000,
                            d >= 2,
                    ;
                } else {
                    assert(a / 1 == a);
                }
            }
            -q
        }
    }

    /// Returns the number of nanoseconds.
    pub fn to_ns(self) -> (ns: i64)
        ensures
            ns == self.nanos(),
    {
        self.inner
    }

    /// Returns the number of whole milliseconds, rounded toward zero.
    pub fn to_ms(self) -> (ms: i64)
        ensures
            ms == div_toward_zero(self.nanos(), NSEC_PER_MSEC as int),
    {
        self.divns_constant(NSEC_PER_MSEC)
    }

    /// The difference `self - other`.
    pub fn sub(self, other: Ktime) -> (d: Ktime)
        requires
            i64::MIN <= self.nanos() - other.nanos() <= i64::MAX,
        ensures
            d.nanos() == self.nanos() - other.nanos(),
    {
        Ktime { inner: self.inner - other.inner }
    }
}

/// Returns the number of milliseconds between two ktimes, rounded toward zero.
pub fn ktime_ms_delta(later: Ktime, earlier: Ktime) -> (ms: i64)
    requires
        i64::MIN <= later.nanos() - earlier.nanos() <= i64::MAX,
    ensures
        ms == div_toward_zero(later.nanos() - earlier.nanos(), NSEC_PER_MSEC as int),
{
    later.sub(earlier).to_ms()
}

} // verus!

verus! {

/// The number of nanoseconds per second.
pub const NSEC_PER_SEC: u32 = 1000000000;

/// A timestamp: seconds since the Unix epoch and nanoseconds within that second.
#[derive(Copy, Clone)]
pub struct Timespec {
    tv_sec: i64,
    tv_nsec: i64,
}

impl Timespec {
    #[verifier::type_invariant]
    spec fn inv(self) -> bool {
        &&& 0 <= self.tv_sec
        &&& 0 <= self.tv_nsec < NSEC_PER_SEC
    }

    /// The seconds since the Unix epoch.
    pub closed spec fn sec(self) -> int {
        self.tv_sec as int
    }

    /// The nanoseconds within the second.
    pub closed spec fn nsec(self) -> int {
        self.tv_nsec as int
    }

    /// Creates a new timestamp.
    ///
    /// `sec` is the number of seconds since the Unix epoch. `nsec` is the number of nanoseconds
    /// within that second. A `nsec` of a full second or more is out of domain; a `sec` beyond
    /// the signed 64-bit range is an invalid argument.
    pub fn new(sec: u64, nsec: u32) -> (r: Result<Timespec, Error>)
        ensures
            nsec >= NSEC_PER_SEC ==> r == Err::<Timespec, Error>(Error::Domain),
            nsec < NSEC_PER_SEC && sec > i64::MAX ==> r == Err::<Timespec, Error>(
                Error::InvalidArgument,
            ),
            nsec < NSEC_PER_SEC && sec <= i64::MAX ==> (r matches Ok(t) && t.sec() == sec
                && t.nsec() == nsec),
    {
        if nsec >= NSEC_PER_SEC {
            return Err(Error::Domain);
        }
        if sec > i64::MAX as u64 {
            return Err(Error::InvalidArgument);
        }
        Ok(Timespec { tv_sec: sec as i64, tv_nsec: nsec as i64 })
    }

    /// The number of seconds since the Unix epoch.
    pub fn seconds(self) -> (s: i64)
        ensures
            s == self.sec(),
            s >= 0,
    {
        proof { use_type_invariant(self); }
        self.tv_sec
    }

    /// The number of nanoseconds within the second returned by [`Timespec::seconds`].
    pub fn nanoseconds(self) -> (ns: u32)
        ensures
            ns == self.nsec(),
            ns < NSEC_PER_SEC,
    {
        proof { use_type_invariant(self); }
        self.tv_nsec as u32
    }
}

} // verus!
