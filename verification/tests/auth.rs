use eddiner::authed_cookie::AuthedCookie;
use eddiner::grecaptcha::GrecaptchaResponse;
use eddiner::routes::auth_code::{auth_code_on_activated, auth_code_on_row};
use eddiner::routes::auth::{
    auth_after_captcha, auth_on_activated, auth_on_token, auth_query_token, AuthFault, AuthReply,
    AuthStep,
};
use eddiner::services::auth_verification::{
    grecaptcha_form, turnstile_form, verify_auth_resp, GRECAPTCHA_VERIFY_URL,
    TURNSTILE_VERIFY_URL,
};
use eddiner::turnstile::TurnstileResponse;

fn row(ip: &str) -> AuthedCookie {
    AuthedCookie {
        id: 1,
        cookie: "tk".to_string(),
        authed_time: None,
        origin_ip: ip.to_string(),
        authed: 0,
        writed_time: "1000".to_string(),
        auth_code: "123456".to_string(),
        last_thread_creation: None,
        last_wrote_time: None,
    }
}

fn turnstile(success: bool) -> TurnstileResponse {
    TurnstileResponse {
        success,
        error_codes: vec![],
        challenge_ts: String::new(),
        hostname: String::new(),
    }
}

fn grecaptcha(success: bool) -> GrecaptchaResponse {
    GrecaptchaResponse {
        success,
        error_codes: None,
        challenge_ts: String::new(),
        hostname: String::new(),
    }
}

#[test]
fn both_providers_must_report_success() {
    assert!(verify_auth_resp(&turnstile(true), Some(&grecaptcha(true))));
    assert!(!verify_auth_resp(&turnstile(true), Some(&grecaptcha(false))));
    assert!(!verify_auth_resp(&turnstile(false), Some(&grecaptcha(true))));
    assert!(!verify_auth_resp(&turnstile(false), Some(&grecaptcha(false))));
    assert!(verify_auth_resp(&turnstile(true), None));
    assert!(!verify_auth_resp(&turnstile(false), None));
}

#[test]
fn verification_forms() {
    let form = turnstile_form("sec", "resp", "1.1.1.1");
    assert_eq!((form.secret.as_str(), form.response.as_str(), form.remoteip.as_str()), ("sec", "resp", "1.1.1.1"));
    assert!(grecaptcha_form(None, Some("r"), "1.1.1.1").is_none());
    assert!(grecaptcha_form(Some("s"), None, "1.1.1.1").unwrap().is_none());
    let form = grecaptcha_form(Some("s"), Some("r"), "1.1.1.1").unwrap().unwrap();
    assert_eq!((form.secret.as_str(), form.response.as_str(), form.remoteip.as_str()), ("s", "r", "1.1.1.1"));
    assert_eq!(TURNSTILE_VERIFY_URL, "https://challenges.cloudflare.com/turnstile/v0/siteverify");
    assert_eq!(GRECAPTCHA_VERIFY_URL, "https://www.google.com/recaptcha/api/siteverify");
}

#[test]
fn auth_by_token() {
    match auth_after_captcha(false, Some("tk")) {
        AuthStep::Done(AuthReply::Failed { reason }) => {
            assert_eq!(reason, "Cloudflareの認証に失敗しました")
        }
        other => panic!("{other:?}"),
    }
    assert!(matches!(auth_after_captcha(true, None), AuthStep::Done(AuthReply::BadRequest)));
    match auth_after_captcha(true, Some("tk")) {
        AuthStep::LookUpToken { token } => assert_eq!(token, "tk"),
        other => panic!("{other:?}"),
    }
    match auth_on_token(Ok(Some(row("1.1.1.1"))), "1.1.1.1", 1234) {
        AuthStep::Activate { token, authed_time } => {
            assert_eq!((token.as_str(), authed_time.as_str()), ("tk", "1234"))
        }
        other => panic!("{other:?}"),
    }
    match auth_on_token(Ok(Some(row("1.1.1.1"))), "1.1.1.2", 1234) {
        AuthStep::Done(AuthReply::Failed { reason }) => {
            assert_eq!(reason, "IPが一致していません: 1.1.1.1 <-> 1.1.1.2")
        }
        other => panic!("{other:?}"),
    }
    assert!(matches!(
        auth_on_token(Ok(Some(row("2001:db8:1:2:3::"))), "2001:db8:1:2:9:9:9:9", 1),
        AuthStep::Activate { .. }
    ));
    assert!(matches!(
        auth_on_token(Ok(None), "1.1.1.1", 1),
        AuthStep::Done(AuthReply::ServerError(AuthFault::GetToken))
    ));
    assert!(matches!(
        auth_on_token(Err(()), "1.1.1.1", 1),
        AuthStep::Done(AuthReply::ServerError(AuthFault::GetToken))
    ));
    assert!(matches!(auth_on_activated(true, "tk"), AuthReply::Succeeded { .. }));
    assert!(matches!(
        auth_on_activated(false, "tk"),
        AuthReply::ServerError(AuthFault::UpdateToken)
    ));
    assert_eq!(AuthFault::GetToken.message(), "internal server error: DB get authed token");
}

#[test]
fn auth_query() {
    assert_eq!(auth_query_token(Some("token=abc")).as_deref(), Some("abc"));
    assert_eq!(auth_query_token(Some("token=abc=def")).as_deref(), Some("abc"));
    assert_eq!(auth_query_token(Some("token=")).as_deref(), Some(""));
    assert_eq!(auth_query_token(Some("token")), None);
    assert_eq!(auth_query_token(None), None);
}

#[test]
fn store_failures_on_auth_code_are_server_errors() {
    assert!(matches!(
        auth_code_on_row(Err(()), 1),
        AuthStep::Done(AuthReply::ServerError(AuthFault::Db))
    ));
    assert!(matches!(
        auth_code_on_activated(false, "tk", true),
        AuthReply::ServerError(AuthFault::Db)
    ));
    assert_eq!(AuthFault::Db.message(), "internal server error: DB");
    let mut authed = row("1.1.1.1");
    authed.authed = 1;
    match auth_code_on_row(Ok(Some(authed)), 1000) {
        AuthStep::Done(AuthReply::Failed { reason }) => {
            assert_eq!(reason, "認証コード、もしくはIPアドレスが一致しません")
        }
        other => panic!("{other:?}"),
    }
    let mut odd = row("1.1.1.1");
    odd.writed_time = "soon".to_string();
    match auth_code_on_row(Ok(Some(odd)), 1000) {
        AuthStep::Done(AuthReply::Failed { reason }) => {
            assert_eq!(reason, "認証コードの有効期限が切れています")
        }
        other => panic!("{other:?}"),
    }
}
