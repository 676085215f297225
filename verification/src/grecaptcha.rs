//! The answer of the reCAPTCHA verification service.

use vstd::prelude::*;

verus! {

/// What reCAPTCHA's `siteverify` reports.
#[derive(Debug)]
pub struct GrecaptchaResponse {
    pub success: bool,
    pub error_codes: Option<Vec<String>>,
    pub challenge_ts: String,
    pub hostname: String,
}

} // verus!
