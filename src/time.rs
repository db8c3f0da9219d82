//! Instants on the UTC time line, and their presentation in Japan Standard Time.

use vstd::prelude::*;

verus! {

/// An instant, as microseconds since the Unix epoch (UTC).
#[derive(Clone, Copy, Debug, PartialEq, Eq, Structural)]
pub struct UtcTime {
    pub micros: i64,
}

/// An instant together with the fixed UTC offset it is shown in.
#[derive(Clone, Copy, Debug, PartialEq, Eq, Structural)]
pub struct ZonedTime {
    pub utc: UtcTime,
    pub offset_seconds: i32,
}

/// Offset of Japan Standard Time east of UTC, in seconds.
pub const JST_OFFSET_SECONDS: i32 = 32400;

/// The same instant, shown at UTC+09:00.
pub fn into_jst(utc: UtcTime) -> (r: ZonedTime)
    ensures
        r.utc == utc,
        r.offset_seconds == 9 * 3600,
{
    ZonedTime { utc, offset_seconds: JST_OFFSET_SECONDS }
}

/// Relies on chrono::Utc::now (and DateTime::timestamp_micros) for the current
/// instant. chrono panics rather than return an instant before the epoch.
#[verifier::external_body]
pub(crate) fn now_utc() -> (r: UtcTime)
    ensures
        r.micros >= 0,
{
    UtcTime { micros: chrono::Utc::now().timestamp_micros() }
}

} // verus!
