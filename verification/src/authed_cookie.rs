//! The row that stands for an issued token.

use crate::response::copy_opt;
use vstd::prelude::*;

verus! {

/// An issued token with the state of its authentication.
#[derive(Debug, Clone)]
pub struct AuthedCookie {
    pub id: i64,
    pub cookie: String,
    pub authed_time: Option<String>,
    pub origin_ip: String,
    pub authed: i32,
    pub writed_time: String,
    pub auth_code: String,
    pub last_thread_creation: Option<String>,
    pub last_wrote_time: Option<String>,
}

impl AuthedCookie {
    /// Whether the token has been authenticated and may post.
    pub open spec fn is_authed(&self) -> bool {
        self.authed == 1
    }

    /// Whether the token has been authenticated and may post.
    pub fn may_post(&self) -> (r: bool)
        ensures
            r == self.is_authed(),
    {
        self.authed == 1
    }
}

impl AuthedCookie {
    /// A copy of this row.
    pub fn copy(&self) -> (r: AuthedCookie)
        ensures
            r == *self,
    {
        AuthedCookie {
            id: self.id,
            cookie: self.cookie.clone(),
            authed_time: copy_opt(&self.authed_time),
            origin_ip: self.origin_ip.clone(),
            authed: self.authed,
            writed_time: self.writed_time.clone(),
            auth_code: self.auth_code.clone(),
            last_thread_creation: copy_opt(&self.last_thread_creation),
            last_wrote_time: copy_opt(&self.last_wrote_time),
        }
    }
}

} // verus!
