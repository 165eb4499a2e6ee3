//! Wall-clock timestamps, as milliseconds since the Unix epoch in UTC.

use vstd::prelude::*;

verus! {

/// The current time in milliseconds since the Unix epoch
/// (`chrono::Utc::now`, read out by `DateTime::timestamp_millis`). The value
/// depends on the clock; claimed is only that it is not before the epoch:
/// chrono panics, rather than return, when the system clock is set before
/// 1970, a condition of the machine and not of any argument.
#[verifier::external_body]
pub(crate) fn now_millis() -> (t: i64)
    ensures
        t >= 0,
{
    chrono::Utc::now().timestamp_millis()
}

} // verus!
