//! Answers of the generated service that need no storage.

use vstd::prelude::*;

verus! {

/// The deployed version of the generated service.
pub open spec fn service_version() -> Seq<char> {
    "0.0.1"@
}

/// Handle `GET /version`: the message of its `200 OK` answer, the service version.
pub fn get_version() -> (r: &'static str)
    ensures
        r@ == service_version(),
{
    "0.0.1"
}

} // verus!
