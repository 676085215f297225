//! The verification of CAPTCHA answers: what is sent to the two providers
//! and how their answers are weighed.

use crate::grecaptcha::GrecaptchaResponse;
use crate::turnstile::TurnstileResponse;
use vstd::prelude::*;

verus! {

/// Where Turnstile answers are verified.
pub const TURNSTILE_VERIFY_URL: &'static str =
    "https://challenges.cloudflare.com/turnstile/v0/siteverify";

/// Where reCAPTCHA answers are verified.
pub const GRECAPTCHA_VERIFY_URL: &'static str = "https://www.google.com/recaptcha/api/siteverify";

/// The fields of a verification request.
#[derive(Debug, Clone)]
pub struct SiteverifyForm {
    pub secret: String,
    pub response: String,
    pub remoteip: String,
}

/// Makes the fields that Turnstile is sent.
pub fn turnstile_form(secret: &str, response: &str, ip: &str) -> (r: SiteverifyForm)
    ensures
        r.secret@ == secret@,
        r.response@ == response@,
        r.remoteip@ == ip@,
{
    SiteverifyForm {
        secret: secret.to_owned(),
        response: response.to_owned(),
        remoteip: ip.to_owned(),
    }
}

/// Makes what reCAPTCHA is sent. Without a secret nothing is sent; with a
/// secret but without an answer an empty form is sent.
pub fn grecaptcha_form(secret: Option<&str>, response: Option<&str>, ip: &str) -> (r: Option<
    Option<SiteverifyForm>,
>)
    ensures
        secret is None <==> r is None,
        r is Some ==> (response is None <==> r->0 is None),
        r is Some && r->0 is Some ==> {
            &&& r->0->0.secret@ == secret->0@
            &&& r->0->0.response@ == response->0@
            &&& r->0->0.remoteip@ == ip@
        },
{
    match secret {
        None => None,
        Some(s) => match response {
            None => Some(None),
            Some(t) => Some(
                Some(
                    SiteverifyForm {
                        secret: s.to_owned(),
                        response: t.to_owned(),
                        remoteip: ip.to_owned(),
                    },
                ),
            ),
        },
    }
}

/// Whether the answers pass: Turnstile reports success, and so does
/// reCAPTCHA where it was asked.
pub open spec fn captcha_passes(turnstile: bool, grecaptcha: Option<bool>) -> bool {
    turnstile && (grecaptcha is None || grecaptcha->0)
}

/// Weighs the answers of the providers.
pub fn verify_auth_resp(turnstile: &TurnstileResponse, grecaptcha: Option<&GrecaptchaResponse>) -> (r:
    bool)
    ensures
        r == captcha_passes(
            turnstile.success,
            match grecaptcha {
                Some(g) => Some(g.success),
                None => None,
            },
        ),
{
    match grecaptcha {
        Some(g) => turnstile.success && g.success,
        None => turnstile.success,
    }
}

} // verus!
