//! Decoding client input.
//!
//! A chunk read from the socket is arbitrary bytes. It is decoded as UTF-8
//! text, with a placeholder substituted for any invalid sequence so that
//! decoding never fails, and the surrounding whitespace is trimmed. The two
//! std functions that do this are named rather than restated: `lossy_of` and
//! `trim_of` stand for their results, and every contract downstream is exact
//! in terms of those names.
use vstd::prelude::*;

verus! {

/// The characters that `String::from_utf8_lossy` decodes from the given
/// bytes: the text itself where the bytes are valid UTF-8, with U+FFFD
/// substituted for each invalid sequence.
pub uninterp spec fn lossy_of(bytes: Seq<u8>) -> Seq<char>;

/// The characters left after `str::trim` has removed leading and trailing
/// whitespace from the given text.
pub uninterp spec fn trim_of(text: Seq<char>) -> Seq<char>;

/// Relies on `String::from_utf8_lossy`: decodes the bytes as UTF-8,
/// substituting U+FFFD for invalid sequences, and never fails.
#[verifier::external_body]
pub(crate) fn lossy_decode(bytes: &[u8]) -> (r: String)
    ensures
        r@ == lossy_of(bytes@),
{
    String::from_utf8_lossy(bytes).into_owned()
}

/// Relies on `str::trim`: removes leading and trailing whitespace and
/// changes nothing else.
#[verifier::external_body]
pub(crate) fn trim_text(text: &str) -> (r: String)
    ensures
        r@ == trim_of(text@),
{
    text.trim().to_owned()
}

/// Decodes one chunk of client input: lossy UTF-8 decoding followed by a
/// trim of surrounding whitespace. Total: no input makes it fail.
pub fn decode_input(bytes: &[u8]) -> (r: String)
    ensures
        r@ == trim_of(lossy_of(bytes@)),
{
    let text = lossy_decode(bytes);
    trim_text(text.as_str())
}

} // verus!
