//! The one clock access: the current UTC calendar date, for the `date`
//! template key. Callers that need determinism pass a date in instead.

use vstd::prelude::*;

verus! {

/// Relies on `time::UtcDateTime::now` and `time::Date`'s `Display`: the
/// current UTC calendar date as a string. The result depends on the clock,
/// so nothing is claimed about its value.
#[verifier::external_body]
pub fn today_utc() -> String {
    time::UtcDateTime::now().date().to_string()
}

} // verus!
