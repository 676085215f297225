//! Tripcodes: the code shown after `◆` for the text that follows `#` in a name.

use crate::hashes::{
    base64_encode, base64_text, is_crypt_char, is_des_salt, sha1, sha1_digest, unix_crypt,
    unix_crypt_hash,
};
use crate::sjis::{sjis_bytes, sjis_encode, MAX_TEXT};
use crate::text::{chars_of, push_char, replace_str, replaced, slice_of, string_of};
use vstd::prelude::*;

verus! {

/// The salt character that a byte of the key stands for.
pub open spec fn salt_char(b: u8) -> char {
    if 0x3a <= b <= 0x40 {
        (b + 7) as char
    } else if 0x5b <= b <= 0x60 {
        (b + 6) as char
    } else if 46 <= b <= 122 {
        b as char
    } else {
        '.'
    }
}

/// The bytes from which the salt of a short key is made: its second and
/// third byte where it has three, then `H.`.
pub open spec fn salt_source(key: Seq<u8>) -> Seq<u8> {
    if key.len() >= 3 {
        seq![key[1], key[2], 0x48u8, 0x2eu8]
    } else {
        seq![0x48u8, 0x2eu8]
    }
}

/// The `crypt(3)` salt of a short key.
pub open spec fn trip_salt(key: Seq<u8>) -> Seq<char> {
    Seq::new(salt_source(key).len(), |i: int| salt_char(salt_source(key)[i]))
}

/// The first `n` characters of `s`, or all of `s` where it is shorter.
pub open spec fn first_chars(s: Seq<char>, n: nat) -> Seq<char> {
    if s.len() <= n {
        s
    } else {
        s.take(n as int)
    }
}

/// The tripcode that is cut from the Base64 text of a digest: its first
/// twelve characters, with `.` for `+`.
pub open spec fn trip_of_base64(encoded: Seq<char>) -> Seq<char> {
    replaced(first_chars(encoded, 12), "+"@, "."@)
}

/// The tripcode that is cut from a `crypt(3)` hash: what follows its third
/// character.
pub open spec fn trip_of_crypt(hash: Seq<char>) -> Seq<char> {
    if hash.len() >= 3 {
        hash.skip(3)
    } else {
        Seq::<char>::empty()
    }
}

/// The tripcode of a key given as Shift_JIS bytes. A key of twelve bytes or
/// more goes through SHA-1 and Base64, a shorter one through `crypt(3)`.
pub open spec fn trip_of_bytes(key: Seq<u8>) -> Seq<char> {
    if key.len() >= 12 {
        trip_of_base64(base64_text(sha1_digest(key)))
    } else {
        trip_of_crypt(unix_crypt_hash(key, trip_salt(key)))
    }
}

/// The tripcode of a key: that of its Shift_JIS encoding.
pub open spec fn trip_of(key: Seq<char>) -> Seq<char> {
    trip_of_bytes(sjis_bytes(key))
}

/// Cuts the tripcode out of the Base64 text of a digest.
pub fn trip_from_base64(encoded: &str) -> (r: String)
    ensures
        r@ == trip_of_base64(encoded@),
{
    let chars = chars_of(encoded);
    let head = if chars.len() <= 12 {
        chars
    } else {
        let h = slice_of(&chars, 0, 12);
        assert(chars@.subrange(0, 12) == chars@.take(12));
        h
    };
    proof {
        reveal_strlit("+");
    }
    let out = replace_str(&head, "+", ".");
    string_of(&out)
}

/// Cuts the tripcode out of a `crypt(3)` hash.
pub fn trip_from_crypt(hash: &str) -> (r: String)
    ensures
        r@ == trip_of_crypt(hash@),
{
    let chars = chars_of(hash);
    if chars.len() < 3 {
        return String::new();
    }
    let tail = slice_of(&chars, 3, chars.len());
    assert(chars@.subrange(3, chars.len() as int) == chars@.skip(3));
    string_of(&tail)
}

/// Maps a byte of the key to its salt character.
fn salt_char_of(b: u8) -> (c: char)
    ensures
        c == salt_char(b),
        is_crypt_char(c),
{
    if 0x3a <= b && b <= 0x40 {
        (b + 7) as char
    } else if 0x5b <= b && b <= 0x60 {
        (b + 6) as char
    } else if 46 <= b && b <= 122 {
        b as char
    } else {
        '.'
    }
}

/// Builds the `crypt(3)` salt of a short key.
pub fn salt_for(key: &[u8]) -> (r: String)
    ensures
        r@ == trip_salt(key@),
        is_des_salt(r@),
{
    let mut out = String::new();
    if key.len() >= 3 {
        push_char(&mut out, salt_char_of(key[1]));
        push_char(&mut out, salt_char_of(key[2]));
    }
    push_char(&mut out, salt_char_of(0x48));
    push_char(&mut out, salt_char_of(0x2e));
    assert(out@ == trip_salt(key@));
    out
}

/// Computes the tripcode of a key given as Shift_JIS bytes.
pub fn trip_from_bytes(key: &[u8]) -> (r: String)
    ensures
        r@ == trip_of_bytes(key@),
{
    if key.len() >= 12 {
        let digest = sha1(key);
        let encoded = base64_encode(digest.as_slice());
        trip_from_base64(encoded.as_str())
    } else {
        let salt = salt_for(key);
        let hash = unix_crypt(key, salt.as_str()).unwrap();
        trip_from_crypt(hash.as_str())
    }
}

/// Computes the tripcode of `target`, the text that follows `#` in a name.
pub fn calculate_trip(target: &str) -> (r: String)
    requires
        target@.len() <= MAX_TEXT,
    ensures
        r@ == trip_of(target@),
{
    let bytes = sjis_encode(target);
    trip_from_bytes(bytes.as_slice())
}

/// Tripcodes are determined by the Shift_JIS encoding of the key: two keys
/// that encode to the same bytes have the same tripcode.
pub proof fn lemma_trip_by_encoding(a: Seq<char>, b: Seq<char>)
    requires
        sjis_bytes(a) == sjis_bytes(b),
    ensures
        trip_of(a) == trip_of(b),
{
}

} // verus!
