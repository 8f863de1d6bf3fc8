//! Sources of provenance data: the wall clock, fresh identifiers, and the
//! labels built from them.

use vstd::prelude::*;
use vstd::string::StringExecFns;
use crate::text::decimal_string_i64;
use crate::text::spec_decimal_i64;

verus! {

/// Relies on `chrono::Utc::now` and `DateTime::timestamp_millis`: the current
/// time in milliseconds since the Unix epoch.  The value depends on the
/// clock, so nothing is promised of it.
#[verifier::external_body]
pub(crate) fn now_millis() -> i64 {
    chrono::Utc::now().timestamp_millis()
}

/// Relies on `chrono::Utc::now` and `DateTime::timestamp`: the current time
/// in whole seconds since the Unix epoch.  The value depends on the clock,
/// so nothing is promised of it.
#[verifier::external_body]
pub(crate) fn now_secs() -> i64 {
    chrono::Utc::now().timestamp()
}

/// Relies on `uuid::Uuid::new_v4` and its `Display` form: a random
/// identifier rendered in the hyphenated format of 36 characters.
#[verifier::external_body]
pub(crate) fn fresh_id() -> (r: String)
    ensures
        r@.len() == 36,
{
    uuid::Uuid::new_v4().to_string()
}

/// Builds `prefix` followed by the decimal rendering of `stamp`.
pub fn stamped_label(prefix: &str, stamp: i64) -> (s: String)
    ensures
        s@ == prefix@ + spec_decimal_i64(stamp as int),
{
    let mut s = String::from_str(prefix);
    let digits = decimal_string_i64(stamp);
    s.append(digits.as_str());
    s
}

} // verus!
