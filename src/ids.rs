//! Fresh identifiers and timestamps.

use vstd::prelude::*;

verus! {

/// Relies on `uuid::Uuid::new_v4`, written as text by its `Display`: a
/// random identifier in the hyphenated form of 36 characters.
#[verifier::external_body]
pub(crate) fn new_uuid() -> (r: String)
    ensures
        r@.len() == 36,
{
    uuid::Uuid::new_v4().to_string()
}

/// Relies on `chrono::Utc::now`, written by `DateTime::to_rfc3339`: the current time.
#[verifier::external_body]
pub(crate) fn now_rfc3339() -> (r: String) {
    chrono::Utc::now().to_rfc3339()
}

} // verus!
