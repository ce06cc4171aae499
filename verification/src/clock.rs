//! The one reading of the wall clock the library makes.

use vstd::prelude::*;

verus! {

/// Relies on chrono's `Utc::now` and `DateTime::timestamp`: the current time
/// as whole seconds since the Unix epoch. The value depends on the
/// environment, so nothing is assumed of it; every consumer takes the
/// timestamp as an argument and is verified for all values.
#[verifier::external_body]
pub fn now_unix_ts() -> i64 {
    chrono::Utc::now().timestamp()
}

} // verus!
