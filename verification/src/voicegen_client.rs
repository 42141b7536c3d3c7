//! Errors a voice engine request can end in.

use vstd::prelude::*;

verus! {

/// Why a voice engine request failed, carrying the transport's message.
#[derive(Debug)]
pub enum RequestError {
    Unknown(String),
}

} // verus!
