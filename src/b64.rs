//! The "B" encoding of RFC 2047, which is base64 with the standard alphabet
//! and padding, as the `base64` crate computes it.
use base64::Engine;
use vstd::prelude::*;

verus! {

/// What the `base64` crate's standard engine encodes a byte sequence to.
pub uninterp spec fn base64_of(b: Seq<u8>) -> Seq<char>;

/// What the `base64` crate's standard engine decodes a text to, `None` where it rejects it.
pub uninterp spec fn base64_bytes_of(s: Seq<char>) -> Option<Seq<u8>>;

/// The standard base64 alphabet and the padding character.
pub open spec fn is_base64_char(c: char) -> bool {
    ('A' <= c && c <= 'Z') || ('a' <= c && c <= 'z') || ('0' <= c && c <= '9') || c == '+' || c
        == '/' || c == '='
}

/// The length of the padded base64 encoding of `n` bytes.
pub open spec fn base64_len(n: nat) -> nat {
    4 * ((n + 2) / 3)
}

/// Relies on `base64::engine::general_purpose::STANDARD.encode`: four
/// characters of the standard alphabet or `=` for each started group of three
/// bytes; the same engine decodes the result back to the input. It panics only
/// where the encoded length overflows `usize`.
#[verifier::external_body]
pub(crate) fn base64_encode(b: &Vec<u8>) -> (r: String)
    requires
        b@.len() <= usize::MAX / 2,
    ensures
        r@ == base64_of(b@),
        r@.len() == base64_len(b@.len()),
        forall|i: int| 0 <= i < r@.len() ==> is_base64_char(#[trigger] r@[i]),
        base64_bytes_of(r@) == Some(b@),
{
    base64::engine::general_purpose::STANDARD.encode(b)
}

/// Relies on `base64::engine::general_purpose::STANDARD.decode`, which
/// requires canonical padding; its result depends on the text alone.
#[verifier::external_body]
pub(crate) fn base64_decode(s: &str) -> (r: Option<Vec<u8>>)
    ensures
        match r {
            Some(v) => base64_bytes_of(s@) == Some(v@),
            None => base64_bytes_of(s@) is None,
        },
{
    base64::engine::general_purpose::STANDARD.decode(s).ok()
}

} // verus!
