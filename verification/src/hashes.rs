//! Digests and encodings computed by outside crates, each under a name that
//! contracts can speak of.

use crate::sjis::MAX_BYTES;
use crate::text::{is_digit, push_char};
use base64::Engine;
use sha1::Digest;
use vstd::prelude::*;

verus! {

/// The SHA-1 digest of `data`.
pub uninterp spec fn sha1_digest(data: Seq<u8>) -> Seq<u8>;

/// The MD5 digest of `data`.
pub uninterp spec fn md5_digest(data: Seq<u8>) -> Seq<u8>;

/// The SHA-512 digest of `data`.
pub uninterp spec fn sha512_digest(data: Seq<u8>) -> Seq<u8>;

/// The standard Base64 text of `data`, with padding.
pub uninterp spec fn base64_text(data: Seq<u8>) -> Seq<char>;

/// The traditional DES-based `crypt(3)` hash of a password under a salt.
pub uninterp spec fn unix_crypt_hash(pass: Seq<u8>, salt: Seq<char>) -> Seq<char>;

/// Computes the SHA-1 digest of `data`.
///
/// Trusted: the result is what `sha1::Sha1::digest` returns, which is twenty
/// bytes long.
#[verifier::external_body]
pub(crate) fn sha1(data: &[u8]) -> (r: Vec<u8>)
    ensures
        r@ == sha1_digest(data@),
        r@.len() == 20,
{
    sha1::Sha1::digest(data).to_vec()
}

/// Computes the MD5 digest of `data`.
///
/// Trusted: the result is what `md5::Md5::digest` returns, which is sixteen
/// bytes long.
#[verifier::external_body]
pub(crate) fn md5(data: &[u8]) -> (r: Vec<u8>)
    ensures
        r@ == md5_digest(data@),
        r@.len() == 16,
{
    md5::Md5::digest(data).to_vec()
}

/// Computes the SHA-512 digest of `data`.
///
/// Trusted: the result is what `sha2::Sha512::digest` returns.
#[verifier::external_body]
pub(crate) fn sha512(data: &[u8]) -> (r: Vec<u8>)
    ensures
        r@ == sha512_digest(data@),
{
    sha2::Sha512::digest(data).to_vec()
}

/// Encodes `data` in standard Base64.
///
/// Trusted: the result is what `encode` of `base64`'s `STANDARD` engine
/// returns. That function fails only where the encoded length overflows
/// `usize`, which the bound on the length excludes.
#[verifier::external_body]
pub(crate) fn base64_encode(data: &[u8]) -> (r: String)
    requires
        data@.len() <= MAX_BYTES,
    ensures
        r@ == base64_text(data@),
{
    base64::engine::general_purpose::STANDARD.encode(data)
}

/// A character of the alphabet in which `crypt(3)` writes salts and hashes.
pub open spec fn is_crypt_char(c: char) -> bool {
    c == '.' || c == '/' || is_digit(c) || ('A' <= c && c <= 'Z') || ('a' <= c && c <= 'z')
}

/// A salt for the DES-based `crypt(3)`: two or more characters of its alphabet.
pub open spec fn is_des_salt(salt: Seq<char>) -> bool {
    salt.len() >= 2 && forall|i: int| 0 <= i < salt.len() ==> is_crypt_char(#[trigger] salt[i])
}

/// Hashes `pass` with the DES-based `crypt(3)` under `salt`.
///
/// Trusted: the result is what `pwhash::unix::crypt` returns. With a salt of
/// two or more characters of the crypt alphabet that function takes the DES
/// branch, accepts the salt, and returns the two salt characters followed by
/// eleven characters of hash.
#[verifier::external_body]
pub(crate) fn unix_crypt(pass: &[u8], salt: &str) -> (r: Option<String>)
    requires
        is_des_salt(salt@),
    ensures
        match r {
            Some(h) => h@ == unix_crypt_hash(pass@, salt@) && h@.len() == 13,
            None => false,
        },
{
    pwhash::unix::crypt(pass, salt).ok()
}

/// The lower-case hexadecimal digit of a value below sixteen.
pub open spec fn hex_digit(v: u8) -> char {
    if v < 10 {
        (v + 48) as char
    } else {
        (v + 87) as char
    }
}

/// The lower-case hexadecimal text of `data`, two digits for each byte.
pub open spec fn hex_text(data: Seq<u8>) -> Seq<char>
    decreases data.len(),
{
    if data.len() == 0 {
        Seq::<char>::empty()
    } else {
        hex_text(data.drop_last()).push(hex_digit(data.last() / 16)).push(
            hex_digit(data.last() % 16),
        )
    }
}

/// Whether `c` is a digit of lower-case hexadecimal.
pub open spec fn is_lower_hex(c: char) -> bool {
    ('0' <= c && c <= '9') || ('a' <= c && c <= 'f')
}

/// The hexadecimal text of bytes has two digits for each of them.
pub proof fn lemma_hex_text(data: Seq<u8>)
    ensures
        hex_text(data).len() == 2 * data.len(),
        forall|i: int| 0 <= i < hex_text(data).len() ==> is_lower_hex(#[trigger] hex_text(data)[i]),
    decreases data.len(),
{
    if data.len() > 0 {
        lemma_hex_text(data.drop_last());
        let hi = data.last() / 16;
        let lo = data.last() % 16;
        assert(is_lower_hex(hex_digit(hi)));
        assert(is_lower_hex(hex_digit(lo)));
    }
}

/// Writes `data` in lower-case hexadecimal.
pub fn hex_lower(data: &[u8]) -> (r: String)
    ensures
        r@ == hex_text(data@),
{
    let mut out = String::new();
    let mut i: usize = 0;
    assert(data@.take(0) == Seq::<u8>::empty());
    while i < data.len()
        invariant
            i <= data.len(),
            out@ == hex_text(data@.take(i as int)),
        decreases data.len() - i,
    {
        let b = data[i];
        let hi: u8 = b / 16;
        let lo: u8 = b % 16;
        assert(data@.take(i + 1).drop_last() == data@.take(i as int));
        assert(data@.take(i + 1).last() == b);
        push_char(&mut out, hex_char(hi));
        push_char(&mut out, hex_char(lo));
        i += 1;
    }
    assert(data@.take(data.len() as int) == data@);
    out
}

/// The lower-case hexadecimal digit of `v`.
fn hex_char(v: u8) -> (c: char)
    requires
        v < 16,
    ensures
        c == hex_digit(v),
{
    if v < 10 {
        (v + 48) as char
    } else {
        (v + 87) as char
    }
}

} // verus!
