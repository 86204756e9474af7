//! Decoding file bytes to text.
use vstd::prelude::*;
use crate::classify::opt_view;

verus! {

/// The text that `b` encodes in UTF-8, if `b` is valid UTF-8.
pub uninterp spec fn utf8_decoded(b: Seq<u8>) -> Option<Seq<char>>;

/// `b` decoded as UTF-8 with each invalid sequence replaced by U+FFFD.
pub uninterp spec fn utf8_lossy(b: Seq<u8>) -> Seq<char>;

/// `b` decoded by the Encoding Standard's decode algorithm for UTF-8: a
/// leading byte-order mark selects the encoding it marks (UTF-8, or UTF-16
/// of either byte order) and is removed; malformed sequences become U+FFFD.
pub uninterp spec fn utf8_transcoded(b: Seq<u8>) -> Seq<char>;

/// Relies on `String::from_utf8`: the decoded text when the bytes are valid
/// UTF-8, nothing otherwise.
#[verifier::external_body]
pub(crate) fn decode_utf8(b: Vec<u8>) -> (r: Option<String>)
    ensures
        opt_view(r) == utf8_decoded(b@),
{
    String::from_utf8(b).ok()
}

/// Relies on `String::from_utf8_lossy`: the text with invalid sequences
/// replaced.
#[verifier::external_body]
fn decode_lossy(b: &[u8]) -> (r: String)
    ensures
        r@ == utf8_lossy(b@),
{
    String::from_utf8_lossy(b).into_owned()
}

/// Relies on `encoding_rs::Encoding::decode` of `encoding_rs::UTF_8`: a
/// decoding that never fails.
#[verifier::external_body]
fn decode_transcoded(b: &[u8]) -> (r: String)
    ensures
        r@ == utf8_transcoded(b@),
{
    encoding_rs::UTF_8.decode(b).0.into_owned()
}

/// The text of a file's bytes: with `force_utf8`, strict UTF-8 and the
/// Encoding Standard's decoder when that fails; otherwise lenient UTF-8.
pub open spec fn decoded_text(b: Seq<u8>, force_utf8: bool) -> Seq<char> {
    if force_utf8 {
        match utf8_decoded(b) {
            Some(t) => t,
            None => utf8_transcoded(b),
        }
    } else {
        utf8_lossy(b)
    }
}

/// Decodes the bytes of a file to text; this never fails.
pub fn decode_content(bytes: Vec<u8>, force_utf8: bool) -> (r: String)
    ensures
        r@ == decoded_text(bytes@, force_utf8),
{
    if force_utf8 {
        let copy = bytes.clone();
        match decode_utf8(copy) {
            Some(t) => t,
            None => decode_transcoded(bytes.as_slice()),
        }
    } else {
        decode_lossy(bytes.as_slice())
    }
}

} // verus!
