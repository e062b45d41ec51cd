//! Conversions between bytes, cases and printed forms of text that the standard
//! library computes.
use vstd::prelude::*;
use vstd::utf8::*;

verus! {

/// What `String::from_utf8_lossy` reads in a sequence of bytes.
pub uninterp spec fn lossy_decoding(bytes: Seq<u8>) -> Seq<char>;

/// What `str::to_lowercase` makes of a text.
pub uninterp spec fn lowercase(s: Seq<char>) -> Seq<char>;

/// What `{:?}` prints for a text.
pub uninterp spec fn debug_form(s: Seq<char>) -> Seq<char>;

/// What `{:?}` prints for a path that is written as the given text.
pub uninterp spec fn path_debug_form(s: Seq<char>) -> Seq<char>;

/// `c` in lower case, if it is an ASCII letter.
pub open spec fn ascii_lower_char(c: char) -> char {
    if 'A' <= c && c <= 'Z' {
        (c as u32 + 32) as char
    } else {
        c
    }
}

/// `s` with its ASCII letters in lower case.
pub open spec fn ascii_lowercase(s: Seq<char>) -> Seq<char> {
    s.map_values(|c: char| ascii_lower_char(c))
}

/// A printable ASCII character that is neither a double quote nor a backslash.
pub open spec fn prints_as_itself(c: char) -> bool {
    ' ' <= c && c <= '~' && c != '"' && c != '\\'
}

/// Reads `bytes` as UTF-8 with `String::from_utf8_lossy`. The text depends on the
/// bytes alone; bytes that are valid UTF-8 are decoded as they stand. How invalid
/// bytes are replaced is left to the name `lossy_decoding`.
#[verifier::external_body]
pub(crate) fn lossy_text(bytes: &[u8]) -> (r: String)
    ensures
        r@ == lossy_decoding(bytes@),
        valid_utf8(bytes@) ==> r@ == decode_utf8(bytes@),
{
    String::from_utf8_lossy(bytes).into_owned()
}

/// Reads `bytes` as UTF-8 with `std::str::from_utf8`: there is a text exactly if the
/// bytes are valid, and it is the one that they encode.
#[verifier::external_body]
pub(crate) fn exact_text(bytes: &[u8]) -> (r: Option<String>)
    ensures
        r is Some <==> valid_utf8(bytes@),
        r is Some ==> r->0@ == decode_utf8(bytes@),
{
    std::str::from_utf8(bytes).ok().map(|text| text.to_string())
}

/// Lower-cases `text` with `str::to_lowercase`. The result depends on the text
/// alone; on ASCII text it is the ASCII lower case.
#[verifier::external_body]
pub(crate) fn lower_text(text: &str) -> (r: String)
    ensures
        r@ == lowercase(text@),
        is_ascii_chars(text@) ==> r@ == ascii_lowercase(text@),
{
    text.to_lowercase()
}

/// Prints `text` as `{:?}` does: in double quotes, with escapes. A text of printable
/// ASCII without double quotes and backslashes needs no escapes.
#[verifier::external_body]
pub(crate) fn debug_text(text: &str) -> (r: String)
    ensures
        r@ == debug_form(text@),
        (forall|i: int| 0 <= i < text@.len() ==> prints_as_itself(text@[i])) ==> r@ == seq!['"']
            + text@ + seq!['"'],
{
    format!("{:?}", text)
}

/// Prints the path that is written as `text` as `{:?}` prints a `std::path::Path`. The
/// result depends on the text alone; how it is quoted and escaped is left to the name
/// `path_debug_form`.
#[verifier::external_body]
pub(crate) fn debug_path(text: &str) -> (r: String)
    ensures
        r@ == path_debug_form(text@),
{
    format!("{:?}", std::path::Path::new(text))
}

} // verus!
