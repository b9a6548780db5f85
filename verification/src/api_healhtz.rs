//! The health probe.

use vstd::prelude::*;

verus! {

/// The path of the health probe, served on `GET`.
pub const PATH: &'static str = "/healthz";

/// Answers the health probe: always the text `OK`.
pub fn handler() -> (body: &'static str)
    ensures
        body@ == "OK"@,
{
    "OK"
}

} // verus!
