//! The `/auth` endpoint: activation of a token by the client that holds it.

use crate::authed_cookie::AuthedCookie;
use crate::cap::opt_str_view;
use crate::response::opt_view;
use crate::text::{
    chars_of, cuts, decimal, decimal_string, piece_ranges, pieces, push_str, slice_of, string_of,
};
use crate::tinker::Tinker;
use crate::utils::{equals_ip_addr, same_ip};
use vstd::prelude::*;

verus! {

/// What went wrong outside the rules of authentication.
#[derive(Debug, Clone, Copy, PartialEq, Eq, Structural)]
pub enum AuthFault {
    /// The token could not be looked up, or is not there.
    GetToken,
    /// The token could not be activated.
    UpdateToken,
    /// The store failed.
    Db,
}

impl AuthFault {
    /// The text of the error response.
    pub open spec fn message_text(self) -> Seq<char> {
        match self {
            AuthFault::GetToken => "internal server error: DB get authed token"@,
            AuthFault::UpdateToken => "internal server error: DB update authed token"@,
            AuthFault::Db => "internal server error: DB"@,
        }
    }

    /// The text of the error response.
    pub fn message(self) -> (r: &'static str)
        ensures
            r@ == self.message_text(),
    {
        match self {
            AuthFault::GetToken => "internal server error: DB get authed token",
            AuthFault::UpdateToken => "internal server error: DB update authed token",
            AuthFault::Db => "internal server error: DB",
        }
    }
}

/// How a request to an authentication endpoint is answered.
#[derive(Debug)]
pub enum AuthReply {
    /// 400 "Bad request".
    BadRequest,
    /// 500 with the message of the fault.
    ServerError(AuthFault),
    /// The failure page with this reason, as 400.
    Failed { reason: String },
    /// The success page for this token. `edge_token` is set as a cookie
    /// where it is given, and so is a token for `tinker`.
    Succeeded { token: String, edge_token: Option<String>, tinker: Option<Tinker> },
}

/// What the caller has to do next.
#[derive(Debug)]
pub enum AuthStep {
    /// Look this token up; answer with `auth_on_token`.
    LookUpToken { token: String },
    /// Look the pending token of this address and code up; answer with
    /// `auth_code_on_row`.
    LookUpCode { ip: String, auth_code: String },
    /// Mark this token as authenticated at this moment; answer with
    /// `auth_on_activated` or `auth_code_on_activated`.
    Activate { token: String, authed_time: String },
    /// Answer the request.
    Done(AuthReply),
}

/// The reason given where the CAPTCHA answers do not pass.
pub open spec fn captcha_failed_reason() -> Seq<char> {
    "Cloudflareの認証に失敗しました"@
}

/// The reason given where the caller is not the client that the token was
/// issued to.
pub open spec fn ip_mismatch_reason(origin_ip: Seq<char>, ip: Seq<char>) -> Seq<char> {
    "IPが一致していません: "@ + origin_ip + " <-> "@ + ip
}

/// The token that the query of a `GET /auth` names: what stands between
/// its first and its second `=`.
pub open spec fn query_token(query: Option<Seq<char>>) -> Option<Seq<char>> {
    match query {
        Some(q) => if pieces(q, '=').len() >= 2 {
            Some(pieces(q, '=')[1])
        } else {
            None
        },
        None => None,
    }
}

/// Reads the token that the query of a `GET /auth` names.
pub fn auth_query_token(query: Option<&str>) -> (r: Option<String>)
    ensures
        opt_view(r) == query_token(opt_str_view(query)),
{
    match query {
        Some(q) => {
            let chars = chars_of(q);
            let parts = piece_ranges(&chars, '=');
            if parts.len() >= 2 {
                let (from, to) = parts[1];
                assert(parts@[1].0 <= parts@[1].1);
                let token = slice_of(&chars, from, to);
                assert(token@ == cuts(chars@, parts@)[1]);
                Some(string_of(&token))
            } else {
                None
            }
        },
        None => None,
    }
}

/// What follows the verification of the CAPTCHA answers on `/auth`:
/// answers that do not pass fail; a request without a token is bad; else
/// the token is looked up.
pub fn auth_after_captcha(passed: bool, edge_token: Option<&str>) -> (step: AuthStep)
    ensures
        match step {
            AuthStep::Done(AuthReply::Failed { reason }) => !passed && reason@
                == captcha_failed_reason(),
            AuthStep::Done(AuthReply::BadRequest) => passed && edge_token is None,
            AuthStep::LookUpToken { token } => passed && edge_token is Some && token@
                == edge_token->0@,
            _ => false,
        },
{
    if !passed {
        return AuthStep::Done(
            AuthReply::Failed { reason: "Cloudflareの認証に失敗しました".to_owned() },
        );
    }
    match edge_token {
        Some(t) => AuthStep::LookUpToken { token: t.to_owned() },
        None => AuthStep::Done(AuthReply::BadRequest),
    }
}

/// What follows the lookup of the token on `/auth`: a token that cannot be
/// found is an error; a caller from another address than the token was
/// issued to fails; else the token is activated at `now`.
pub fn auth_on_token(found: Result<Option<AuthedCookie>, ()>, ip: &str, now: u64) -> (step:
    AuthStep)
    ensures
        match step {
            AuthStep::Done(AuthReply::ServerError(fault)) => fault == AuthFault::GetToken && !(
            found is Ok && found->Ok_0 is Some),
            AuthStep::Done(AuthReply::Failed { reason }) => {
                &&& found is Ok && found->Ok_0 is Some
                &&& !same_ip(found->Ok_0->0.origin_ip@, ip@)
                &&& reason@ == ip_mismatch_reason(found->Ok_0->0.origin_ip@, ip@)
            },
            AuthStep::Activate { token, authed_time } => {
                &&& found is Ok && found->Ok_0 is Some
                &&& same_ip(found->Ok_0->0.origin_ip@, ip@)
                &&& token@ == found->Ok_0->0.cookie@
                &&& authed_time@ == decimal(now as nat)
            },
            _ => false,
        },
{
    let row = match found {
        Ok(Some(row)) => row,
        _ => {
            return AuthStep::Done(AuthReply::ServerError(AuthFault::GetToken));
        },
    };
    if !equals_ip_addr(row.origin_ip.as_str(), ip) {
        let mut reason = chars_of("IPが一致していません: ");
        push_str(&mut reason, row.origin_ip.as_str());
        push_str(&mut reason, " <-> ");
        push_str(&mut reason, ip);
        return AuthStep::Done(AuthReply::Failed { reason: string_of(&reason) });
    }
    AuthStep::Activate { token: row.cookie, authed_time: decimal_string(now) }
}

/// What follows the activation on `/auth`: the success page for the
/// token, or an error where the activation failed.
pub fn auth_on_activated(activated: bool, token: &str) -> (reply: AuthReply)
    ensures
        match reply {
            AuthReply::Succeeded { token: t, edge_token, tinker } => activated && t@ == token@
                && edge_token is None && tinker is None,
            AuthReply::ServerError(fault) => !activated && fault == AuthFault::UpdateToken,
            _ => false,
        },
{
    if activated {
        AuthReply::Succeeded { token: token.to_owned(), edge_token: None, tinker: None }
    } else {
        AuthReply::ServerError(AuthFault::UpdateToken)
    }
}

} // verus!
