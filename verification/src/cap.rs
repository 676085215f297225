//! Moderator caps.

use crate::hashes::{hex_lower, hex_text, sha512, sha512_digest};
use crate::text::{chars_of, slice_of, string_of};
use vstd::prelude::*;
use vstd::string::StrSliceExecFns;

verus! {

/// A moderator cap: a name and the hash of the password that grants it.
#[derive(Debug, Clone)]
pub struct Cap {
    pub id: usize,
    pub cap_name: String,
    pub cap_password_hash: String,
}

/// The author id that a post made under a cap carries.
pub const CAP_ID_NONE: &'static str = "????";

/// The hash under which the password of a cap is stored: the SHA-512
/// digest of its UTF-8 bytes in lower-case hexadecimal.
pub open spec fn cap_hash(password: Seq<char>) -> Seq<char> {
    hex_text(sha512_digest(vstd::utf8::encode_utf8(password)))
}

/// Computes the hash under which a cap password is stored.
pub fn cap_password_hash(password: &str) -> (r: String)
    ensures
        r@ == cap_hash(password@),
{
    let bytes = password.as_bytes_vec();
    let digest = sha512(bytes.as_slice());
    hex_lower(digest.as_slice())
}

/// The password that a cap field claims: what follows its leading `@`.
/// A field that does not begin with `@` claims none.
pub open spec fn claimed_password(cap: Seq<char>) -> Option<Seq<char>> {
    if cap.len() > 0 && cap[0] == '@' {
        Some(cap.skip(1))
    } else {
        None
    }
}

/// The hash to look a claimed cap up by. Only a request that carries a token
/// cookie can claim a cap.
pub open spec fn cap_lookup_hash(cap: Option<Seq<char>>, has_cookie: bool) -> Option<Seq<char>> {
    match cap {
        Some(c) => if has_cookie && claimed_password(c) is Some {
            Some(cap_hash(claimed_password(c)->0))
        } else {
            None
        },
        None => None,
    }
}

/// Decides whether a cap is claimed and gives the hash to look it up by.
pub fn cap_lookup(cap: Option<&str>, has_cookie: bool) -> (r: Option<String>)
    ensures
        match r {
            Some(h) => cap_lookup_hash(opt_str_view(cap), has_cookie) == Some(h@),
            None => cap_lookup_hash(opt_str_view(cap), has_cookie) is None,
        },
{
    match cap {
        Some(c) => {
            let chars = chars_of(c);
            if has_cookie && chars.len() > 0 && chars[0] == '@' {
                let tail = slice_of(&chars, 1, chars.len());
                assert(chars@.subrange(1, chars.len() as int) == chars@.skip(1));
                let password = string_of(&tail);
                Some(cap_password_hash(password.as_str()))
            } else {
                None
            }
        },
        None => None,
    }
}

/// The value of an optional borrowed text.
pub open spec fn opt_str_view(s: Option<&str>) -> Option<Seq<char>> {
    match s {
        Some(t) => Some(t@),
        None => None,
    }
}

impl Cap {
    /// A copy of this cap.
    pub fn copy(&self) -> (r: Cap)
        ensures
            r == *self,
    {
        Cap {
            id: self.id,
            cap_name: self.cap_name.clone(),
            cap_password_hash: self.cap_password_hash.clone(),
        }
    }
}

} // verus!
