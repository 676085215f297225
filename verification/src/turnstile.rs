//! The answer of the Turnstile verification service.

use vstd::prelude::*;

verus! {

/// What Turnstile's `siteverify` reports.
#[derive(Debug)]
pub struct TurnstileResponse {
    pub success: bool,
    pub error_codes: Vec<String>,
    pub challenge_ts: String,
    pub hostname: String,
}

} // verus!
