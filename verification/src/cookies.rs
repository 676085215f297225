//! The cookies of a request, read by the `cookie` crate.

use crate::cap::opt_str_view;
use crate::response::opt_view;
use crate::text::{chars_of, same_text};
use vstd::prelude::*;

verus! {

/// What the `cookie` crate reads from a `Cookie` header: for each of its
/// parts that is not blank, the name and the value of the cookie, or none
/// where the part is no cookie.
pub uninterp spec fn cookie_pairs(header: Seq<char>) -> Seq<Option<(Seq<char>, Seq<char>)>>;

/// The name and value of a read cookie as texts.
pub open spec fn pair_texts(p: Option<(String, String)>) -> Option<(Seq<char>, Seq<char>)> {
    match p {
        Some(c) => Some((c.0@, c.1@)),
        None => None,
    }
}

/// The names and values of read cookies as texts.
pub open spec fn pairs_texts(ps: Seq<Option<(String, String)>>) -> Seq<
    Option<(Seq<char>, Seq<char>)>,
> {
    Seq::new(ps.len(), |i: int| pair_texts(ps[i]))
}

/// Reads the cookies of a `Cookie` header.
///
/// Trusted: the parts are those that `cookie::Cookie::split_parse` yields,
/// in its order; each is given by what `name` and `value` return of it, or
/// as none where it is an error.
#[verifier::external_body]
pub(crate) fn split_cookies(header: &str) -> (r: Vec<Option<(String, String)>>)
    ensures
        pairs_texts(r@) == cookie_pairs(header@),
{
    let mut out = Vec::new();
    for part in cookie::Cookie::split_parse(header) {
        out.push(
            match part {
                Ok(c) => Some((c.name().to_owned(), c.value().to_owned())),
                Err(_) => None,
            },
        );
    }
    out
}

/// The value of the first of the first `n` cookies with the name `name`.
pub open spec fn first_named(
    pairs: Seq<Option<(Seq<char>, Seq<char>)>>,
    name: Seq<char>,
    n: int,
) -> Option<Seq<char>>
    decreases n,
{
    if n <= 0 {
        None
    } else {
        match first_named(pairs, name, n - 1) {
            Some(v) => Some(v),
            None => match pairs[n - 1] {
                Some(c) => if c.0 == name {
                    Some(c.1)
                } else {
                    None
                },
                None => None,
            },
        }
    }
}

/// The value of the cookie `name` in read cookies: that of the first with
/// that name.
pub open spec fn cookie_among(pairs: Seq<Option<(Seq<char>, Seq<char>)>>, name: Seq<char>) -> Option<
    Seq<char>,
> {
    first_named(pairs, name, pairs.len() as int)
}

/// The value of the cookie `name` in an optional `Cookie` header.
pub open spec fn cookie_value(header: Option<Seq<char>>, name: Seq<char>) -> Option<Seq<char>> {
    match header {
        Some(h) => cookie_among(cookie_pairs(h), name),
        None => None,
    }
}

/// Once a cookie of the name is found among the first `n`, it is the one
/// found among all.
pub proof fn lemma_first_named_stays(
    pairs: Seq<Option<(Seq<char>, Seq<char>)>>,
    name: Seq<char>,
    n: int,
    m: int,
)
    requires
        0 <= n <= m,
        first_named(pairs, name, n) is Some,
    ensures
        first_named(pairs, name, m) == first_named(pairs, name, n),
    decreases m - n,
{
    if n < m {
        lemma_first_named_stays(pairs, name, n, m - 1);
    }
}

/// Finds the value of the cookie `name` among read cookies.
pub fn find_cookie(pairs: &Vec<Option<(String, String)>>, name: &str) -> (r: Option<String>)
    ensures
        opt_view(r) == cookie_among(pairs_texts(pairs@), name@),
{
    let want = chars_of(name);
    let mut i: usize = 0;
    while i < pairs.len()
        invariant
            i <= pairs.len(),
            want@ == name@,
            first_named(pairs_texts(pairs@), name@, i as int) is None,
        decreases pairs.len() - i,
    {
        match &pairs[i] {
            Some(c) => {
                let have = chars_of(c.0.as_str());
                assert(pairs_texts(pairs@)[i as int] == pair_texts(pairs@[i as int]));
                if same_text(&have, &want) {
                    proof {
                        lemma_first_named_stays(
                            pairs_texts(pairs@),
                            name@,
                            i + 1,
                            pairs.len() as int,
                        );
                    }
                    return Some(c.1.clone());
                }
            },
            None => {
                assert(pairs_texts(pairs@)[i as int] == pair_texts(pairs@[i as int]));
            },
        }
        i += 1;
    }
    None
}

/// Finds the cookie `name` in the `Cookie` header of a request.
pub fn cookie_from_header(header: Option<&str>, name: &str) -> (r: Option<String>)
    ensures
        opt_view(r) == cookie_value(opt_str_view(header), name@),
{
    match header {
        Some(h) => {
            let pairs = split_cookies(h);
            find_cookie(&pairs, name)
        },
        None => None,
    }
}

/// Finds `edge-token` in the `Cookie` header of a request.
pub fn get_token_cookies(header: Option<&str>) -> (r: Option<String>)
    ensures
        opt_view(r) == cookie_value(opt_str_view(header), "edge-token"@),
{
    cookie_from_header(header, "edge-token")
}

/// Finds `tinker-token` in the `Cookie` header of a request.
pub fn get_tinker_token_cookies(header: Option<&str>) -> (r: Option<String>)
    ensures
        opt_view(r) == cookie_value(opt_str_view(header), "tinker-token"@),
{
    cookie_from_header(header, "tinker-token")
}

} // verus!
