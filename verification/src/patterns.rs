//! Regular expressions: the patterns that the guard is built on, and what is
//! assumed of the `regex` crate.
use regex::Regex;
use vstd::prelude::*;

verus! {

/// Finds a container ID behind an `--id=` flag.
pub const FLAG_ID_PATTERN: &'static str = r"--id=\b([a-fA-F0-9]{12}|[a-fA-F0-9]{64})\b";

/// Finds a container ID that stands as a word of its own.
pub const WORD_ID_PATTERN: &'static str = r"\b([a-fA-F0-9]{12}|[a-fA-F0-9]{64})\b";

/// Finds a container ID in a line of a control group listing, long form first.
pub const CGROUP_ID_PATTERN: &'static str = r"\b([a-fA-F0-9]{64}|[a-fA-F0-9]{12})\b";

/// Accepts a firewall timeout: digits and one unit.
pub const TIMEOUT_PATTERN: &'static str = r"^\d+[smhd]$";

/// Finds an IPv4 or IPv6 address.
pub const ADDRESS_PATTERN: &'static str =
    r"\b(?:[0-9]{1,3}\.){3}[0-9]{1,3}\b|([a-fA-F0-9:]+:+[a-fA-F0-9:]+)\b";

/// An expression compiled by the `regex` crate.
#[verifier::external_type_specification]
#[verifier::external_body]
pub struct ExRegex(regex::Regex);

/// Why the `regex` crate refused a pattern.
#[verifier::external_type_specification]
#[verifier::external_body]
pub struct ExRegexError(regex::Error);

/// The pattern that a compiled expression stands for: one that, compiled with the
/// default options, finds the same matches.
pub uninterp spec fn regex_pattern(expression: Regex) -> Seq<char>;

/// Whether `Regex::new` accepts a pattern.
pub uninterp spec fn pattern_compiles(pattern: Seq<char>) -> bool;

/// Whether a pattern matches somewhere in a text.
pub uninterp spec fn pattern_accepts(pattern: Seq<char>, text: Seq<char>) -> bool;

/// What a group of a pattern captures at its first match in a text.
pub uninterp spec fn pattern_group(
    pattern: Seq<char>,
    text: Seq<char>,
    group: nat,
) -> Option<Seq<char>>;

/// One of the patterns that this module defines.
pub open spec fn is_built_in(pattern: Seq<char>) -> bool {
    ||| finds_ids(pattern)
    ||| pattern == TIMEOUT_PATTERN@
    ||| pattern == ADDRESS_PATTERN@
}

/// A pattern whose first group captures container IDs.
pub open spec fn finds_ids(pattern: Seq<char>) -> bool {
    ||| pattern == FLAG_ID_PATTERN@
    ||| pattern == WORD_ID_PATTERN@
    ||| pattern == CGROUP_ID_PATTERN@
}

/// A hexadecimal digit of either case.
pub open spec fn is_hex_digit(c: char) -> bool {
    ||| '0' <= c && c <= '9'
    ||| 'a' <= c && c <= 'f'
    ||| 'A' <= c && c <= 'F'
}

/// A container ID: hexadecimal digits, twelve in the short form and sixty-four in
/// the long one.
pub open spec fn is_container_id(s: Seq<char>) -> bool {
    &&& s.len() == 12 || s.len() == 64
    &&& forall|i: int| 0 <= i < s.len() ==> is_hex_digit(#[trigger] s[i])
}

/// A unit of a firewall timeout: seconds, minutes, hours or days.
pub open spec fn is_timeout_unit(c: char) -> bool {
    c == 's' || c == 'm' || c == 'h' || c == 'd'
}

/// A firewall timeout written in ASCII: decimal digits, then a unit.
pub open spec fn is_timeout(s: Seq<char>) -> bool {
    &&& s.len() >= 2
    &&& is_timeout_unit(s.last())
    &&& forall|i: int| 0 <= i < s.len() - 1 ==> '0' <= #[trigger] s[i] && s[i] <= '9'
}

/// A timeout in which decimal digits of other scripts may stand for the ASCII ones.
/// Its only ASCII characters are digits and the unit.
pub open spec fn resembles_timeout(s: Seq<char>) -> bool {
    &&& s.len() >= 2
    &&& is_timeout_unit(s.last())
    &&& forall|i: int|
        0 <= i < s.len() - 1 ==> ((#[trigger] s[i] as u32) < 128 ==> '0' <= s[i] && s[i] <= '9')
}

/// The characters of an optional text.
pub open spec fn option_view(text: Option<String>) -> Option<Seq<char>> {
    match text {
        Some(t) => Some(t@),
        None => None,
    }
}

/// `Regex::new` compiles a pattern with the default options. It accepts or refuses
/// by the pattern alone, it accepts the patterns of this module, and the expression
/// stands for the pattern that was given.
pub assume_specification[ regex::Regex::new ](re: &str) -> (r: Result<Regex, regex::Error>)
    ensures
        r is Ok <==> pattern_compiles(re@),
        r is Ok ==> regex_pattern(r->Ok_0) == re@,
        is_built_in(re@) ==> r is Ok,
;

/// `Regex::is_match` tells whether there is a match anywhere in the text. Of the
/// timeout pattern: it accepts every ASCII timeout, and nothing that does not
/// resemble one.
pub assume_specification[ regex::Regex::is_match ](expression: &Regex, haystack: &str) -> (r: bool)
    ensures
        r == pattern_accepts(regex_pattern(*expression), haystack@),
        regex_pattern(*expression) == TIMEOUT_PATTERN@ && is_timeout(haystack@) ==> r,
        regex_pattern(*expression) == TIMEOUT_PATTERN@ && r ==> resembles_timeout(haystack@),
;

/// The text that `group` captures at the first match, by `Regex::captures` and
/// `Captures::get`: nothing if there is no match or the group takes no part in it.
/// What is captured stands in the text. The first group of a pattern that finds
/// container IDs captures nothing else.
#[verifier::external_body]
pub(crate) fn captured_group(expression: &Regex, text: &str, group: usize) -> (r: Option<String>)
    ensures
        option_view(r) == pattern_group(regex_pattern(*expression), text@, group as nat),
        r is Some ==> crate::text::contains_text(text@, r->0@),
        finds_ids(regex_pattern(*expression)) && group == 1 && r is Some ==> is_container_id(
            r->0@,
        ),
{
    let found = expression.captures(text)?;
    found.get(group).map(|capture| capture.as_str().to_string())
}

/// Compiles one of the patterns of this module.
fn built_in(pattern: &str) -> (r: Regex)
    requires
        is_built_in(pattern@),
    ensures
        regex_pattern(r) == pattern@,
{
    Regex::new(pattern).unwrap()
}

/// The expression that finds a container ID behind an `--id=` flag.
pub fn flag_id_expression() -> (r: Regex)
    ensures
        regex_pattern(r) == FLAG_ID_PATTERN@,
{
    built_in(FLAG_ID_PATTERN)
}

/// The expression that finds a container ID that stands as a word of its own.
pub fn word_id_expression() -> (r: Regex)
    ensures
        regex_pattern(r) == WORD_ID_PATTERN@,
{
    built_in(WORD_ID_PATTERN)
}

/// The expression that finds a container ID in a control group listing.
pub fn cgroup_id_expression() -> (r: Regex)
    ensures
        regex_pattern(r) == CGROUP_ID_PATTERN@,
{
    built_in(CGROUP_ID_PATTERN)
}

/// The expression that accepts firewall timeouts.
pub fn timeout_expression() -> (r: Regex)
    ensures
        regex_pattern(r) == TIMEOUT_PATTERN@,
{
    built_in(TIMEOUT_PATTERN)
}

/// The expression that finds an IP address.
pub fn address_expression() -> (r: Regex)
    ensures
        regex_pattern(r) == ADDRESS_PATTERN@,
{
    built_in(ADDRESS_PATTERN)
}

} // verus!
