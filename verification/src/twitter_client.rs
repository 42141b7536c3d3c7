//! Errors the timeline service requests can end in.

use vstd::prelude::*;

verus! {

/// Why a timeline request failed: the token was rejected, or anything
/// else (carrying the transport's message).
#[derive(Debug)]
pub enum RequestError {
    Unauthorized,
    Unknown(String),
}

} // verus!
