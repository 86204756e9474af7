//! Binary detection from the leading bytes of a file: content sniffing
//! first, a count of unprintable bytes when the sniffer has no answer.
use vstd::prelude::*;
use crate::filelist::same_text;

verus! {

/// How many leading bytes of a file the classification looks at.
pub const SAMPLE_LEN: usize = 1024;

/// The media type that content sniffing recognises in `sample`, if any.
pub uninterp spec fn sniffed_mime(sample: Seq<u8>) -> Option<Seq<char>>;

/// The characters of an optional string.
pub open spec fn opt_view(o: Option<String>) -> Option<Seq<char>> {
    match o {
        Some(s) => Some(s@),
        None => None,
    }
}

/// Relies on `infer::get` and `infer::Type::mime_type`: the media type
/// recognised from the leading bytes, if one is.
#[verifier::external_body]
fn sniff_mime(sample: &[u8]) -> (r: Option<String>)
    ensures
        opt_view(r) == sniffed_mime(sample@),
{
    match infer::get(sample) {
        Some(kind) => Some(kind.mime_type().to_string()),
        None => None,
    }
}

/// Tab, line feed, vertical tab, form feed, carriage return, and the
/// printable ASCII range.
pub open spec fn is_printable(b: u8) -> bool {
    (0x09 <= b && b <= 0x0D) || (0x20 <= b && b <= 0x7E)
}

/// The number of bytes of `s` that are not printable.
pub open spec fn unprintable_count(s: Seq<u8>) -> nat
    decreases s.len(),
{
    if s.len() == 0 {
        0
    } else {
        unprintable_count(s.drop_last()) + if is_printable(s.last()) {
            0nat
        } else {
            1nat
        }
    }
}

/// More than 30% of the bytes are unprintable.
pub open spec fn mostly_unprintable(s: Seq<u8>) -> bool {
    10 * unprintable_count(s) > 3 * s.len()
}

/// A media type in the `text` family.
pub open spec fn is_text_mime(m: Seq<char>) -> bool {
    m.len() >= 5 && m.take(5) == "text/"@
}

/// The verdict on a sample: a recognised type decides by its family;
/// otherwise the share of unprintable bytes does.
pub open spec fn binary_verdict(sample: Seq<u8>) -> bool {
    match sniffed_mime(sample) {
        Some(m) => !is_text_mime(m),
        None => mostly_unprintable(sample),
    }
}

/// Counts the unprintable bytes of `sample`.
pub fn count_unprintable(sample: &[u8]) -> (r: usize)
    ensures
        r == unprintable_count(sample@),
        r <= sample@.len(),
{
    let mut count: usize = 0;
    let mut i: usize = 0;
    while i < sample.len()
        invariant
            i <= sample@.len(),
            count == unprintable_count(sample@.take(i as int)),
            count <= i,
        decreases sample@.len() - i,
    {
        let b = sample[i];
        assert(sample@.take(i + 1).drop_last() =~= sample@.take(i as int));
        if !((0x09 <= b && b <= 0x0D) || (0x20 <= b && b <= 0x7E)) {
            count = count + 1;
        }
        i = i + 1;
    }
    assert(sample@.take(sample@.len() as int) =~= sample@);
    count
}

fn is_text_type(m: &str) -> (r: bool)
    ensures
        r == is_text_mime(m@),
{
    if m.unicode_len() >= 5 {
        same_text(m.substring_char(0, 5), "text/")
    } else {
        false
    }
}

/// Whether a file whose leading bytes (at most `SAMPLE_LEN` of them) are
/// `sample` is binary. The answer depends on those bytes alone.
pub fn is_binary_sample(sample: &[u8]) -> (r: bool)
    requires
        sample@.len() <= SAMPLE_LEN,
    ensures
        r == binary_verdict(sample@),
{
    let mime = sniff_mime(sample);
    verdict_for(&mime, sample)
}

/// The verdict once content sniffing answered `mime` for `sample`: a
/// recognised type decides by its family, otherwise the share of
/// unprintable bytes does.
pub fn verdict_for(mime: &Option<String>, sample: &[u8]) -> (r: bool)
    requires
        sample@.len() <= SAMPLE_LEN,
    ensures
        r == match opt_view(*mime) {
            Some(m) => !is_text_mime(m),
            None => mostly_unprintable(sample@),
        },
{
    match mime {
        Some(m) => !is_text_type(m.as_str()),
        None => {
            let count = count_unprintable(sample);
            10 * count > 3 * sample.len()
        },
    }
}

/// Classification is a function of the sampled bytes: two samples with the
/// same bytes (an unmodified file read twice) get the same verdict.
pub proof fn lemma_verdict_is_deterministic(first: Seq<u8>, second: Seq<u8>)
    requires
        first == second,
    ensures
        binary_verdict(first) == binary_verdict(second),
{
}

} // verus!
