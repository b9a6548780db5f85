//! The little of HTTP that the handlers decide: a status and a body.

use vstd::prelude::*;

verus! {

/// The request was served.
pub const OK: u16 = 200;

/// The body of the request could not be read as a request.
pub const BAD_REQUEST: u16 = 400;

/// The service takes no requests any more.
pub const SERVICE_UNAVAILABLE: u16 = 503;

/// What a handler answers: a status, and a body where there is one.
#[derive(Debug)]
pub struct Response<B> {
    pub status: u16,
    pub body: Option<B>,
}

} // verus!
