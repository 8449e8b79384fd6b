//! The wall clock.

use vstd::prelude::*;

verus! {

/// Calls chrono's `Utc::now` and `DateTime::to_rfc3339`: the current time
/// in UTC, written as RFC 3339 text. The text depends on the clock, so
/// nothing is claimed of it. `Utc::now` panics where the system clock
/// stands before 1970.
#[verifier::external_body]
pub(crate) fn current_timestamp() -> String {
    chrono::Utc::now().to_rfc3339()
}

} // verus!
