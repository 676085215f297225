//! Shift_JIS encoding and decoding, done by the `encoding_rs` crate.

use vstd::prelude::*;

verus! {

/// The longest text, in characters, that is handed to an encoder.
pub const MAX_TEXT: usize = 0x400_0000;

/// The longest byte string that is handed to a decoder or a digest.
pub const MAX_BYTES: usize = 0x1000_0000;

/// The Shift_JIS bytes that `encoding_rs` gives for a text; what cannot be
/// mapped is written as a numeric character reference.
pub uninterp spec fn sjis_bytes(text: Seq<char>) -> Seq<u8>;

/// The text that `encoding_rs` reads from bytes taken as Shift_JIS, with a
/// byte order mark obeyed and malformed input replaced.
pub uninterp spec fn sjis_text(bytes: Seq<u8>) -> Seq<char>;

/// Encodes a text in Shift_JIS.
///
/// Trusted: the result is what `encoding_rs::SHIFT_JIS.encode` returns as its
/// bytes. That function fails only where a buffer size overflows `usize`,
/// which the bound on the length excludes.
#[verifier::external_body]
pub(crate) fn sjis_encode(text: &str) -> (r: Vec<u8>)
    requires
        text@.len() <= MAX_TEXT,
    ensures
        r@ == sjis_bytes(text@),
{
    encoding_rs::SHIFT_JIS.encode(text).0.into_owned()
}

/// Decodes bytes as Shift_JIS.
///
/// Trusted: the result is what `encoding_rs::SHIFT_JIS.decode` returns as its
/// text. That function fails only where a buffer size overflows `usize`,
/// which the bound on the length excludes.
#[verifier::external_body]
pub(crate) fn sjis_decode(bytes: &[u8]) -> (r: String)
    requires
        bytes@.len() <= MAX_BYTES,
    ensures
        r@ == sjis_text(bytes@),
{
    encoding_rs::SHIFT_JIS.decode(bytes).0.into_owned()
}

} // verus!
