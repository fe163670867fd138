//! The current time in whole seconds since the Unix epoch.

use vstd::prelude::*;

verus! {

#[verifier::external_type_specification]
#[verifier::external_body]
pub struct ExSystemTime(std::time::SystemTime);

/// Relies on `SystemTime::now`: the system clock's reading; nothing is known of it.
pub assume_specification[ std::time::SystemTime::now ]() -> std::time::SystemTime;

/// Relies on `Duration::as_secs`: the whole seconds of a duration.
pub assume_specification[ core::time::Duration::as_secs ](d: &core::time::Duration) -> u64;

/// Relies on `SystemTime::duration_since` with `UNIX_EPOCH`: the time since
/// the epoch, or `None` where the clock reads earlier than the epoch.
#[verifier::external_body]
fn since_epoch(t: &std::time::SystemTime) -> (r: Option<core::time::Duration>) {
    t.duration_since(std::time::UNIX_EPOCH).ok()
}

/// The timestamp for a clock reading given as whole seconds since the
/// epoch: `None` (a reading before the epoch) gives 0, and a count past what
/// an `i64` holds gives `i64::MAX`.
pub open spec fn timestamp_spec(secs: Option<u64>) -> int {
    match secs {
        Some(s) => if s <= i64::MAX as u64 {
            s as int
        } else {
            i64::MAX as int
        },
        None => 0,
    }
}

/// A later clock reading never gives a smaller timestamp, and no timestamp
/// is negative.
pub proof fn lemma_timestamp_monotone(a: Option<u64>, b: u64)
    requires
        a matches Some(x) ==> x <= b,
    ensures
        0 <= timestamp_spec(a) <= timestamp_spec(Some(b)),
{
}

/// The timestamp for whole seconds since the epoch, or for a reading before it.
pub fn timestamp_of(secs: Option<u64>) -> (r: i64)
    ensures
        r == timestamp_spec(secs),
        r >= 0,
{
    match secs {
        Some(s) => if s <= i64::MAX as u64 {
            s as i64
        } else {
            i64::MAX
        },
        None => 0,
    }
}

/// The current Unix time in whole seconds: the clock's reading as
/// `timestamp_of` converts it.
pub fn current_ts() -> (r: i64)
    ensures
        r >= 0,
        exists|secs: Option<u64>| r == timestamp_spec(secs),
{
    let now = std::time::SystemTime::now();
    let secs: Option<u64> = match since_epoch(&now) {
        Some(d) => Some(d.as_secs()),
        None => None,
    };
    timestamp_of(secs)
}

} // verus!
