use vstd::prelude::*;
use crate::json::opt_text;

verus! {

/// The text of the leftmost-first match of the regular expression `pattern`
/// in `text`, as the `regex` crate finds it (none when the pattern is invalid).
pub uninterp spec fn regex_first_match(pattern: Seq<char>, text: Seq<char>) -> Option<Seq<char>>;

/// The first capture group of the leftmost-first match of `pattern` in `text`.
pub uninterp spec fn regex_first_group(pattern: Seq<char>, text: Seq<char>) -> Option<Seq<char>>;

/// The first capture group of every successive non-overlapping match of `pattern` in `text`.
pub uninterp spec fn regex_every_group(pattern: Seq<char>, text: Seq<char>) -> Seq<Option<Seq<char>>>;

/// The text of every successive non-overlapping match of `pattern` in `text`.
pub uninterp spec fn regex_every_match(pattern: Seq<char>, text: Seq<char>) -> Seq<Seq<char>>;

/// Whether `pattern` is a valid regular expression that matches somewhere in `text`.
pub uninterp spec fn regex_matches(pattern: Seq<char>, text: Seq<char>) -> bool;

/// A character with a meaning in a regular expression, as
/// `regex_syntax::is_meta_character` lists them.
pub open spec fn is_regex_meta(c: char) -> bool {
    c == '\\' || c == '.' || c == '+' || c == '*' || c == '?' || c == '(' || c == ')' || c == '|' || c == '['
        || c == ']' || c == '{' || c == '}' || c == '^' || c == '$' || c == '#' || c == '&' || c == '-' || c == '~'
}

/// `text` with a backslash before every regular-expression meta character,
/// as `regex::escape` writes it.
pub open spec fn regex_escaped(text: Seq<char>) -> Seq<char>
    decreases text.len(),
{
    if text.len() == 0 {
        Seq::empty()
    } else {
        (if is_regex_meta(text[0]) { seq!['\\', text[0]] } else { seq![text[0]] }) + regex_escaped(text.drop_first())
    }
}

/// `Regex::new(pattern)` then `find(text)`: the leftmost-first match.
#[verifier::external_body]
pub(crate) fn regex_find(pattern: &str, text: &str) -> (r: Option<String>)
    ensures
        opt_text(r) == regex_first_match(pattern@, text@),
{
    match regex::Regex::new(pattern) {
        Ok(re) => re.find(text).map(|m| m.as_str().to_string()),
        Err(_) => None,
    }
}

/// `Regex::new(pattern)` then `captures(text)` and `get(1)`: the first group
/// of the leftmost-first match.
#[verifier::external_body]
pub(crate) fn regex_capture(pattern: &str, text: &str) -> (r: Option<String>)
    ensures
        opt_text(r) == regex_first_group(pattern@, text@),
{
    match regex::Regex::new(pattern) {
        Ok(re) => re.captures(text).and_then(|c| c.get(1)).map(|m| m.as_str().to_string()),
        Err(_) => None,
    }
}

/// `Regex::new(pattern)` then `captures_iter(text)`: group 1 of every match, in order.
#[verifier::external_body]
pub(crate) fn regex_capture_all(pattern: &str, text: &str) -> (r: Vec<Option<String>>)
    ensures
        r@.map_values(|o: Option<String>| opt_text(o)) == regex_every_group(pattern@, text@),
{
    match regex::Regex::new(pattern) {
        Ok(re) => re.captures_iter(text).map(|c| c.get(1).map(|m| m.as_str().to_string())).collect(),
        Err(_) => Vec::new(),
    }
}

/// `Regex::new(pattern)` then `find_iter(text)`: every match, in order.
#[verifier::external_body]
pub(crate) fn regex_find_all(pattern: &str, text: &str) -> (r: Vec<String>)
    ensures
        r@.map_values(|s: String| s@) == regex_every_match(pattern@, text@),
{
    match regex::Regex::new(pattern) {
        Ok(re) => re.find_iter(text).map(|m| m.as_str().to_string()).collect(),
        Err(_) => Vec::new(),
    }
}

/// A character of a Base64 token in either alphabet: an ASCII letter or
/// digit, `_`, `+`, `/`, `=` or `-`.
pub open spec fn is_token_char(c: char) -> bool {
    ('A' <= c && c <= 'Z') || ('a' <= c && c <= 'z') || ('0' <= c && c <= '9') || c == '_' || c == '+' || c
        == '/' || c == '=' || c == '-'
}

/// `Regex::new(pattern)` then `is_match(text)`; false when the pattern is
/// invalid. The anchored class `^[A-Za-z0-9_+/=-]+$` (where `$` matches only
/// at the end of the text) matches exactly the non-empty texts of token
/// characters.
#[verifier::external_body]
pub(crate) fn regex_is_match(pattern: &str, text: &str) -> (r: bool)
    ensures
        r == regex_matches(pattern@, text@),
        pattern@ == r"^[A-Za-z0-9_+/=-]+$"@ ==> (r <==> (text@.len() > 0 && forall|i: int|
            0 <= i < text@.len() ==> is_token_char(#[trigger] text@[i]))),
{
    match regex::Regex::new(pattern) {
        Ok(re) => re.is_match(text),
        Err(_) => false,
    }
}

/// `regex::escape`: `text` as a literal pattern.
#[verifier::external_body]
pub(crate) fn regex_escape(text: &str) -> (r: String)
    ensures
        r@ == regex_escaped(text@),
{
    regex::escape(text)
}

} // verus!
