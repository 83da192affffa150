//! Absolute timestamps.

use vstd::prelude::*;

verus! {

/// Seconds from 1970-01-01T00:00:00 UTC to 2001-01-01T00:00:00 UTC, the
/// instant that Matroska dates count from.
pub const MATROSKA_EPOCH: i64 = 978_307_200;

/// An instant in UTC: whole seconds since 1970-01-01T00:00:00 UTC and the
/// nanoseconds into that second.
#[derive(Debug, Clone, Copy, PartialEq, Eq, Hash, Structural)]
pub struct DateTime {
    /// Seconds since the Unix epoch; negative before it.
    pub secs: i64,
    /// Nanoseconds since the last whole second, below one billion.
    pub nanos: u32,
}

impl DateTime {
    /// The nanosecond part is less than a second.
    pub open spec fn wf(&self) -> bool {
        self.nanos < 1_000_000_000
    }

    /// Nanoseconds since the Unix epoch.
    pub open spec fn unix_nanos(&self) -> int {
        self.secs * 1_000_000_000 + self.nanos
    }
}

/// Adds a signed number of nanoseconds to an instant given in whole Unix
/// seconds, through `chrono`: `DateTime::from_timestamp`, then
/// `DateTime::checked_add_signed` with `TimeDelta::nanoseconds`, and back
/// through `DateTime::timestamp` and `DateTime::timestamp_subsec_nanos`.
///
/// Trusted: within the stated range of `base_secs` the sum is far inside
/// the years that `chrono` can represent, so both steps succeed; the
/// result is the exact sum, split into floor seconds and the rest.
#[verifier::external_body]
pub(crate) fn utc_after(base_secs: i64, offset_nanos: i64) -> (moment: Option<(i64, u32)>)
    requires
        -0x100_0000_0000 <= base_secs <= 0x100_0000_0000,
    ensures
        moment is Some,
        moment.unwrap().1 < 1_000_000_000,
        moment.unwrap().0 * 1_000_000_000 + moment.unwrap().1 == base_secs * 1_000_000_000
            + offset_nanos,
{
    let base = chrono::DateTime::from_timestamp(base_secs, 0)?;
    let moment = base.checked_add_signed(chrono::TimeDelta::nanoseconds(offset_nanos))?;
    Some((moment.timestamp(), moment.timestamp_subsec_nanos()))
}

impl DateTime {
    /// The instant `nanos` nanoseconds after (or, if negative, before)
    /// 2001-01-01T00:00:00 UTC.
    pub fn from_matroska_nanos(nanos: i64) -> (date: DateTime)
        ensures
            date.wf(),
            date.unix_nanos() == MATROSKA_EPOCH * 1_000_000_000 + nanos,
    {
        let (secs, sub) = utc_after(MATROSKA_EPOCH, nanos).unwrap();
        DateTime { secs, nanos: sub }
    }
}

} // verus!
