//! The one reading the engine takes from the outside world's clock.
use vstd::prelude::*;

verus! {

/// Relies on time::OffsetDateTime::now_utc and unix_timestamp: the current
/// wall-clock time, as seconds since the Unix epoch. Nothing is promised
/// of the value: every caller of the engine's logic takes the timestamp as
/// an argument and is verified for every value of it.
#[verifier::external_body]
pub(crate) fn now_epoch_seconds() -> i64 {
    time::OffsetDateTime::now_utc().unix_timestamp()
}

} // verus!
