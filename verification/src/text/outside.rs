//! Results of the standard library that are known by name only.

use vstd::prelude::*;
use vstd::utf8::{decode_utf8, valid_utf8};

verus! {

/// What `String::from_utf8_lossy` makes of some bytes.
pub uninterp spec fn lossy_text(bytes: Seq<u8>) -> Seq<char>;

/// `String::from_utf8_lossy`: bytes that are UTF-8 are that text; others become some text
/// that depends on the bytes alone (invalid sequences turn into U+FFFD).
#[verifier::external_body]
pub(crate) fn text_lossy(bytes: &[u8]) -> (r: String)
    ensures
        r@ == lossy_text(bytes@),
        valid_utf8(bytes@) ==> r@ == decode_utf8(bytes@),
{
    String::from_utf8_lossy(bytes).into_owned()
}

/// What `Debug` shows for a text.
pub uninterp spec fn debug_text(text: Seq<char>) -> Seq<char>;

/// `str`'s `Debug`: quotes and escapes, depending on the text alone.
#[verifier::external_body]
pub(crate) fn show_quoted(text: &str) -> (r: String)
    ensures
        r@ == debug_text(text@),
{
    format!("{:?}", text)
}

/// The lower case of a text.
pub uninterp spec fn lowercase(text: Seq<char>) -> Seq<char>;

/// `str::to_lowercase`: the lower case of a text by the Unicode tables, depending on the text
/// alone.
#[verifier::external_body]
pub(crate) fn to_lower(text: &str) -> (r: String)
    ensures
        r@ == lowercase(text@),
{
    text.to_lowercase()
}

/// The upper case of a text.
pub uninterp spec fn uppercase(text: Seq<char>) -> Seq<char>;

/// `str::to_uppercase`: the upper case of a text by the Unicode tables, depending on the text
/// alone.
#[verifier::external_body]
pub(crate) fn to_upper(text: &str) -> (r: String)
    ensures
        r@ == uppercase(text@),
{
    text.to_uppercase()
}

/// What a number of milliseconds is in seconds, with one decimal.
pub uninterp spec fn seconds_text(ms: u64) -> Seq<char>;

/// `format!` of `Duration::as_secs_f32` with one decimal: the text depends on the duration
/// alone.
#[verifier::external_body]
pub(crate) fn show_seconds(ms: u64) -> (r: String)
    ensures
        r@ == seconds_text(ms),
{
    format!("{:.1}", std::time::Duration::from_millis(ms).as_secs_f32())
}

/// What `Debug` shows for a `Duration` of that many milliseconds.
pub uninterp spec fn duration_text(ms: u64) -> Seq<char>;

/// `std::time::Duration`'s `Debug`: the text depends on the duration alone.
#[verifier::external_body]
pub(crate) fn show_duration(ms: u64) -> (r: String)
    ensures
        r@ == duration_text(ms),
{
    format!("{:?}", std::time::Duration::from_millis(ms))
}

} // verus!
