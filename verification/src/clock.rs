use vstd::prelude::*;

verus! {

/// Relies on chrono's `Utc::now` and `to_rfc3339`: the current time as an
/// RFC 3339 text. Nothing can be promised of the clock's reading.
#[verifier::external_body]
pub(crate) fn rfc3339_timestamp() -> (r: String) {
    chrono::Utc::now().to_rfc3339()
}

} // verus!
