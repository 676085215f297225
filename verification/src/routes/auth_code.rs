//! The `/auth-code` endpoint: activation of a token by the code that its
//! challenge page showed.

use crate::authed_cookie::AuthedCookie;
use crate::metadent::{parse_u64, parsed_u64};
use crate::routes::auth::{captcha_failed_reason, AuthFault, AuthReply, AuthStep};
use crate::text::{chars_of, decimal, decimal_string};
use crate::tinker::Tinker;
use vstd::prelude::*;

verus! {

/// The seconds for which an authentication code is valid.
pub const AUTH_CODE_LIFETIME: u64 = 300;

/// The reason given where no pending token matches address and code.
pub open spec fn no_match_reason() -> Seq<char> {
    "認証コード、もしくはIPアドレスが一致しません"@
}

/// The reason given where the code is too old.
pub open spec fn expired_reason() -> Seq<char> {
    "認証コードの有効期限が切れています"@
}

/// Whether a code that was issued at the moment `writed_time` names is
/// still valid at `now`: the moment is a number and lies no more than five
/// minutes back.
pub open spec fn code_is_fresh(writed_time: Seq<char>, now: u64) -> bool {
    match parsed_u64(writed_time, 10) {
        Some(issued) => now - issued <= AUTH_CODE_LIFETIME,
        None => false,
    }
}

/// What follows the verification of the CAPTCHA answers on `/auth-code`:
/// answers that do not pass fail; a request without a code is bad; else
/// the pending token of the address and the code is looked up.
pub fn auth_code_after_captcha(passed: bool, ip: &str, auth_code: Option<&str>) -> (step: AuthStep)
    ensures
        match step {
            AuthStep::Done(AuthReply::Failed { reason }) => !passed && reason@
                == captcha_failed_reason(),
            AuthStep::Done(AuthReply::BadRequest) => passed && auth_code is None,
            AuthStep::LookUpCode { ip: i, auth_code: c } => passed && auth_code is Some && i@
                == ip@ && c@ == auth_code->0@,
            _ => false,
        },
{
    if !passed {
        return AuthStep::Done(
            AuthReply::Failed { reason: "Cloudflareの認証に失敗しました".to_owned() },
        );
    }
    match auth_code {
        Some(c) => AuthStep::LookUpCode { ip: ip.to_owned(), auth_code: c.to_owned() },
        None => AuthStep::Done(AuthReply::BadRequest),
    }
}

/// What follows the lookup on `/auth-code`: a failed lookup is an error;
/// where no token matches, or the one that does is authenticated already,
/// the request fails; so it does where the code is older than five
/// minutes; else the token is activated at `now`.
pub fn auth_code_on_row(found: Result<Option<AuthedCookie>, ()>, now: u64) -> (step: AuthStep)
    ensures
        match found {
            Err(_) => step == AuthStep::Done(AuthReply::ServerError(AuthFault::Db)),
            Ok(None) => match step {
                AuthStep::Done(AuthReply::Failed { reason }) => reason@ == no_match_reason(),
                _ => false,
            },
            Ok(Some(row)) => if row.is_authed() {
                match step {
                    AuthStep::Done(AuthReply::Failed { reason }) => reason@ == no_match_reason(),
                    _ => false,
                }
            } else if !code_is_fresh(row.writed_time@, now) {
                match step {
                    AuthStep::Done(AuthReply::Failed { reason }) => reason@ == expired_reason(),
                    _ => false,
                }
            } else {
                match step {
                    AuthStep::Activate { token, authed_time } => token@ == row.cookie@
                        && authed_time@ == decimal(now as nat),
                    _ => false,
                }
            },
        },
{
    let row = match found {
        Err(_) => {
            return AuthStep::Done(AuthReply::ServerError(AuthFault::Db));
        },
        Ok(None) => {
            return AuthStep::Done(
                AuthReply::Failed {
                    reason: "認証コード、もしくはIPアドレスが一致しません".to_owned(),
                },
            );
        },
        Ok(Some(row)) => row,
    };
    if row.may_post() {
        return AuthStep::Done(
            AuthReply::Failed { reason: "認証コード、もしくはIPアドレスが一致しません".to_owned() },
        );
    }
    let issued_text = chars_of(row.writed_time.as_str());
    assert(issued_text@.subrange(0, issued_text.len() as int) == issued_text@);
    let fresh = match parse_u64(&issued_text, 0, issued_text.len(), 10) {
        Some(issued) => now <= issued || now - issued <= AUTH_CODE_LIFETIME,
        None => false,
    };
    if !fresh {
        return AuthStep::Done(
            AuthReply::Failed { reason: "認証コードの有効期限が切れています".to_owned() },
        );
    }
    AuthStep::Activate { token: row.cookie, authed_time: decimal_string(now) }
}

/// What follows the activation on `/auth-code`: the success page for the
/// token, with the token as a cookie and, where tinker tokens are issued,
/// a fresh tinker; or an error where the activation failed.
pub fn auth_code_on_activated(activated: bool, token: &str, tinker_enabled: bool) -> (reply:
    AuthReply)
    ensures
        match reply {
            AuthReply::Succeeded { token: t, edge_token, tinker } => {
                &&& activated
                &&& t@ == token@
                &&& edge_token is Some && edge_token->0@ == token@
                &&& tinker is Some <==> tinker_enabled
                &&& tinker is Some ==> {
                    &&& tinker->0.authed_token@ == token@
                    &&& tinker->0.wrote_count == 0
                    &&& tinker->0.created_thread_count == 0
                    &&& tinker->0.level == 0
                    &&& tinker->0.last_level_up_at == 0
                    &&& tinker->0.last_wrote_at == 0
                }
            },
            AuthReply::ServerError(fault) => !activated && fault == AuthFault::Db,
            _ => false,
        },
{
    if !activated {
        return AuthReply::ServerError(AuthFault::Db);
    }
    let tinker = if tinker_enabled {
        Some(Tinker::new(token.to_owned()))
    } else {
        None
    };
    AuthReply::Succeeded { token: token.to_owned(), edge_token: Some(token.to_owned()), tinker }
}

} // verus!
