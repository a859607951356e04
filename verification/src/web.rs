use vstd::prelude::*;
use crate::json::opt_text;

verus! {

/// `url::Url::parse` accepts `raw`.
pub uninterp spec fn url_parses(raw: Seq<char>) -> bool;

/// The scheme of the parsed URL (`Url::scheme`).
pub uninterp spec fn url_scheme(raw: Seq<char>) -> Seq<char>;

/// The user name of the parsed URL (`Url::username`, empty when absent).
pub uninterp spec fn url_username(raw: Seq<char>) -> Seq<char>;

/// The password of the parsed URL (`Url::password`).
pub uninterp spec fn url_password(raw: Seq<char>) -> Option<Seq<char>>;

/// The explicit port of the parsed URL (`Url::port`: none when absent or the scheme's default).
pub uninterp spec fn url_port(raw: Seq<char>) -> Option<u16>;

/// The host of the parsed URL as text (`Url::host_str`).
pub uninterp spec fn url_host(raw: Seq<char>) -> Option<Seq<char>>;

/// The decoded query pairs of the parsed URL, in order (`Url::query_pairs`).
pub uninterp spec fn url_query_pairs(raw: Seq<char>) -> Seq<(Seq<char>, Seq<char>)>;

/// `base` parsed, with `pairs` appended to its query (form-encoded), serialized again.
pub uninterp spec fn url_with_pairs(base: Seq<char>, pairs: Seq<(Seq<char>, Seq<char>)>) -> Option<Seq<char>>;

/// `raw` parsed, its query removed, serialized again (`Url::set_query(None)`).
pub uninterp spec fn url_without_query(raw: Seq<char>) -> Option<Seq<char>>;

/// The message of the error that `url::Url::parse` reports for `raw`.
pub uninterp spec fn url_error_text(raw: Seq<char>) -> Seq<char>;

/// `urlencoding::decode`: percent-decoding of `text`, none when the result is not UTF-8.
pub uninterp spec fn percent_decoded(text: Seq<char>) -> Option<Seq<char>>;

/// The UTF-8 encoding of a character.
pub open spec fn utf8_of(c: char) -> Seq<u8> {
    let n = c as u32;
    if n < 0x80 {
        seq![n as u8]
    } else if n < 0x800 {
        seq![(0xC0 + n / 64) as u8, (0x80 + n % 64) as u8]
    } else if n < 0x10000 {
        seq![(0xE0 + n / 4096) as u8, (0x80 + (n / 64) % 64) as u8, (0x80 + n % 64) as u8]
    } else {
        seq![(0xF0 + n / 262144) as u8, (0x80 + (n / 4096) % 64) as u8, (0x80 + (n / 64) % 64) as u8, (0x80 + n % 64) as u8]
    }
}

/// The UTF-8 encoding of a text.
pub open spec fn utf8_bytes(s: Seq<char>) -> Seq<u8>
    decreases s.len(),
{
    if s.len() == 0 { Seq::empty() } else { utf8_of(s[0]) + utf8_bytes(s.drop_first()) }
}

/// A byte that percent-encoding keeps: an ASCII letter or digit, `-`, `.`, `_` or `~`.
pub open spec fn url_safe_byte(b: u8) -> bool {
    (48 <= b <= 57) || (65 <= b <= 90) || (97 <= b <= 122) || b == 45 || b == 46 || b == 95 || b == 126
}

/// An upper-case hexadecimal digit for `n < 16`.
pub open spec fn upper_hex_digit(n: u8) -> char {
    if n < 10 { (n + 48) as char } else { (n + 55) as char }
}

/// Percent-encoding of bytes: safe bytes as they are, every other byte as `%XX`.
pub open spec fn percent_bytes(bs: Seq<u8>) -> Seq<char>
    decreases bs.len(),
{
    if bs.len() == 0 {
        Seq::empty()
    } else {
        let b = bs[0];
        (if url_safe_byte(b) { seq![b as char] } else { seq!['%', upper_hex_digit(b / 16), upper_hex_digit(b % 16)] })
            + percent_bytes(bs.drop_first())
    }
}

/// `urlencoding::encode`: every UTF-8 byte of `text` except ASCII letters,
/// digits, `-`, `.`, `_` and `~` written as `%` and two upper-case hex digits.
pub open spec fn percent_encoded(text: Seq<char>) -> Seq<char> {
    percent_bytes(utf8_bytes(text))
}

/// The parts of a URL that the library inspects.
#[derive(Debug)]
pub struct UrlParts {
    pub scheme: String,
    pub username: String,
    pub password: Option<String>,
    pub port: Option<u16>,
    pub host: Option<String>,
    pub query: Vec<(String, String)>,
}

/// A pair of texts.
pub open spec fn pair_text(p: (String, String)) -> (Seq<char>, Seq<char>) {
    (p.0@, p.1@)
}

/// `url::Url::parse`, then the accessors `scheme`, `username`, `password`,
/// `port`, `host_str` and `query_pairs` (decoded, in order); or the text of
/// the parse error.
#[verifier::external_body]
pub(crate) fn parse_url(raw: &str) -> (r: Result<UrlParts, String>)
    ensures
        r is Ok <==> url_parses(raw@),
        r matches Ok(p) ==> {
            &&& p.scheme@ == url_scheme(raw@)
            &&& p.username@ == url_username(raw@)
            &&& opt_text(p.password) == url_password(raw@)
            &&& p.port == url_port(raw@)
            &&& opt_text(p.host) == url_host(raw@)
            &&& p.query@.map_values(|q: (String, String)| pair_text(q)) == url_query_pairs(raw@)
        },
        r matches Err(t) ==> t@ == url_error_text(raw@),
{
    match url::Url::parse(raw) {
        Ok(url) => Ok(UrlParts {
            scheme: url.scheme().to_string(),
            username: url.username().to_string(),
            password: url.password().map(|p| p.to_string()),
            port: url.port(),
            host: url.host_str().map(|h| h.to_string()),
            query: url.query_pairs().map(|(k, v)| (k.into_owned(), v.into_owned())).collect(),
        }),
        Err(error) => Err(error.to_string()),
    }
}

/// `url::Url::parse(base)`, then `query_pairs_mut().extend_pairs(pairs)`, then `to_string`.
#[verifier::external_body]
pub(crate) fn with_query_pairs(base: &str, pairs: &[(String, String)]) -> (r: Option<String>)
    ensures
        r is Some <==> url_parses(base@),
        opt_text(r) == url_with_pairs(base@, pairs@.map_values(|p: (String, String)| pair_text(p))),
{
    match url::Url::parse(base) {
        Ok(mut url) => {
            url.query_pairs_mut().extend_pairs(pairs.iter().map(|(k, v)| (k.as_str(), v.as_str())));
            Some(url.to_string())
        },
        Err(_) => None,
    }
}

/// `url::Url::parse(raw)`, then `set_query(None)`, then `to_string`.
#[verifier::external_body]
pub(crate) fn strip_query(raw: &str) -> (r: Option<String>)
    ensures
        opt_text(r) == url_without_query(raw@),
{
    match url::Url::parse(raw) {
        Ok(mut url) => {
            url.set_query(None);
            Some(url.to_string())
        },
        Err(_) => None,
    }
}

/// `urlencoding::decode`.
#[verifier::external_body]
pub(crate) fn percent_decode(text: &str) -> (r: Option<String>)
    ensures
        opt_text(r) == percent_decoded(text@),
{
    match urlencoding::decode(text) {
        Ok(value) => Some(value.into_owned()),
        Err(_) => None,
    }
}

/// `urlencoding::encode`.
#[verifier::external_body]
pub(crate) fn percent_encode(text: &str) -> (r: String)
    ensures
        r@ == percent_encoded(text@),
{
    urlencoding::encode(text).into_owned()
}

} // verus!
