//! Wall-clock time on the NTP scale: whole seconds since 1 January 1900 and a
//! 32-bit binary fraction of a second.

use std::time::{SystemTime, UNIX_EPOCH};
use vstd::arithmetic::div_mod::{lemma_div_is_ordered, lemma_div_plus_one, lemma_multiply_divide_lt};
use vstd::prelude::*;

verus! {

/// Seconds from the NTP epoch (1 January 1900) to the Unix epoch (1 January 1970).
pub const NTP_UNIX_OFFSET: u64 = 2_208_988_800;

/// Nanoseconds in one second.
pub const NANOS_PER_SECOND: u32 = 1_000_000_000;

/// One second in units of the NTP fraction field.
pub const FRACTION_PER_SECOND: u64 = 0x1_0000_0000;

/// An instant on the NTP time scale.
#[derive(Clone, Copy, Debug, PartialEq, Eq, Structural)]
pub struct NtpTimestamp {
    /// Whole seconds since the NTP epoch.
    pub seconds: u64,
    /// Sub-second part, in units of 1/2^32 of a second.
    pub fraction: u32,
}

/// The NTP fraction that a sub-second count of nanoseconds maps to, rounded down.
pub open spec fn fraction_of_nanos(nanos: int) -> int {
    nanos * FRACTION_PER_SECOND / NANOS_PER_SECOND as int
}

impl NtpTimestamp {
    /// The instant as one linear count of 1/2^32 second units since the NTP epoch.
    pub open spec fn units(self) -> int {
        self.seconds * FRACTION_PER_SECOND + self.fraction
    }

    pub fn new(seconds: u64, fraction: u32) -> (r: NtpTimestamp)
        ensures
            r.seconds == seconds,
            r.fraction == fraction,
    {
        NtpTimestamp { seconds, fraction }
    }

    /// Orders two instants by their position on the time scale.
    pub fn compare(&self, other: &NtpTimestamp) -> (r: core::cmp::Ordering)
        ensures
            (r == core::cmp::Ordering::Less) == (self.units() < other.units()),
            (r == core::cmp::Ordering::Equal) == (self.units() == other.units()),
            (r == core::cmp::Ordering::Greater) == (self.units() > other.units()),
    {
        if self.seconds < other.seconds {
            core::cmp::Ordering::Less
        } else if self.seconds > other.seconds {
            core::cmp::Ordering::Greater
        } else if self.fraction < other.fraction {
            core::cmp::Ordering::Less
        } else if self.fraction > other.fraction {
            core::cmp::Ordering::Greater
        } else {
            core::cmp::Ordering::Equal
        }
    }

    /// Whether this instant is `other` or later.
    pub fn is_at_or_after(&self, other: &NtpTimestamp) -> (r: bool)
        ensures
            r == (self.units() >= other.units()),
    {
        self.seconds > other.seconds || (self.seconds == other.seconds && self.fraction >= other.fraction)
    }

    /// The instant `delta` whole seconds later, or `None` when the seconds field would overflow.
    pub fn add_seconds(&self, delta: u64) -> (r: Option<NtpTimestamp>)
        ensures
            r is None <==> self.seconds + delta > u64::MAX,
            r matches Some(t) ==> t.seconds == self.seconds + delta && t.fraction == self.fraction
                && t.units() == self.units() + delta * FRACTION_PER_SECOND,
    {
        match self.seconds.checked_add(delta) {
            Some(s) => {
                let r = NtpTimestamp { seconds: s, fraction: self.fraction };
                assert(r.units() == self.units() + delta * FRACTION_PER_SECOND) by (nonlinear_arith)
                    requires
                        r.seconds == self.seconds + delta,
                        r.fraction == self.fraction,
                ;
                Some(r)
            },
            None => None,
        }
    }
}

/// A sub-second count below one second maps to a fraction below one second.
pub proof fn lemma_fraction_in_range(nanos: int)
    requires
        0 <= nanos < NANOS_PER_SECOND,
    ensures
        0 <= fraction_of_nanos(nanos) < FRACTION_PER_SECOND,
{
    assert(0 <= nanos * FRACTION_PER_SECOND) by (nonlinear_arith)
        requires
            0 <= nanos,
    ;
    assert(nanos * FRACTION_PER_SECOND < NANOS_PER_SECOND as int * FRACTION_PER_SECOND) by (nonlinear_arith)
        requires
            0 <= nanos < NANOS_PER_SECOND,
    ;
    lemma_multiply_divide_lt(nanos * FRACTION_PER_SECOND, NANOS_PER_SECOND as int, FRACTION_PER_SECOND as int);
}

/// Within one second the fraction strictly increases as the nanoseconds advance.
pub proof fn lemma_fraction_strictly_increasing(earlier: int, later: int)
    requires
        0 <= earlier < later < NANOS_PER_SECOND,
    ensures
        fraction_of_nanos(earlier) < fraction_of_nanos(later),
{
    let d = NANOS_PER_SECOND as int;
    let x = earlier * FRACTION_PER_SECOND;
    let y = later * FRACTION_PER_SECOND;
    assert(x + d <= y) by (nonlinear_arith)
        requires
            earlier < later,
            x == earlier * FRACTION_PER_SECOND,
            y == later * FRACTION_PER_SECOND,
            d == NANOS_PER_SECOND as int,
    ;
    lemma_div_plus_one(x, d);
    lemma_div_is_ordered(d + x, y, d);
}

/// The NTP instant of a Unix time given as whole seconds and nanoseconds, or
/// `None` when the seconds do not fit the NTP seconds field.
pub fn unix_to_ntp(unix_seconds: u64, nanos: u32) -> (r: Option<NtpTimestamp>)
    requires
        nanos < NANOS_PER_SECOND,
    ensures
        r is None <==> unix_seconds + NTP_UNIX_OFFSET > u64::MAX,
        r matches Some(t) ==> t.seconds == unix_seconds + NTP_UNIX_OFFSET
            && t.fraction == fraction_of_nanos(nanos as int),
{
    proof {
        lemma_fraction_in_range(nanos as int);
    }
    match unix_seconds.checked_add(NTP_UNIX_OFFSET) {
        Some(seconds) => {
            let scaled: u128 = (nanos as u128) * (FRACTION_PER_SECOND as u128);
            let fraction: u128 = scaled / (NANOS_PER_SECOND as u128);
            Some(NtpTimestamp { seconds, fraction: fraction as u32 })
        },
        None => None,
    }
}

/// Relies on `SystemTime::now` and `SystemTime::duration_since(UNIX_EPOCH)`: the
/// wall clock as whole seconds and nanoseconds since the Unix epoch, or `None` when
/// the clock reads earlier than the epoch. `Duration::subsec_nanos` is documented to
/// stay below one billion.
#[verifier::external_body]
fn unix_clock() -> (r: Option<(u64, u32)>)
    ensures
        r matches Some(p) ==> p.1 < NANOS_PER_SECOND,
{
    match SystemTime::now().duration_since(UNIX_EPOCH) {
        Ok(d) => Some((d.as_secs(), d.subsec_nanos())),
        Err(_) => None,
    }
}

/// The current wall-clock instant on the NTP scale, or `None` when the clock
/// reads before the Unix epoch or too far ahead for the seconds field.
pub fn ntp_now() -> (r: Option<NtpTimestamp>)
    ensures
        r matches Some(t) ==> t.seconds >= NTP_UNIX_OFFSET && t.fraction < FRACTION_PER_SECOND
            && exists|nanos: u32|
                nanos < NANOS_PER_SECOND && #[trigger] fraction_of_nanos(nanos as int) == t.fraction,
{
    match unix_clock() {
        Some((unix_seconds, nanos)) => unix_to_ntp(unix_seconds, nanos),
        None => None,
    }
}

} // verus!
