//! The current time, as the importers stamp it on what they import.

use vstd::prelude::*;

verus! {

/// `chrono::Utc::now().to_rfc3339()`: the current UTC time in RFC 3339 form.
/// The time depends on the clock, so nothing is claimed of the result.
#[verifier::external_body]
pub fn now_rfc3339() -> String {
    chrono::Utc::now().to_rfc3339()
}

} // verus!
