use vstd::prelude::*;
use sha2::Digest;
use base64::Engine;

verus! {

/// The SHA-256 digest of `data`, as the `sha2` crate computes it.
pub uninterp spec fn sha256_of(data: Seq<u8>) -> Seq<u8>;

/// `sha2::Sha256::digest`: the 32-byte SHA-256 digest of `data`.
#[verifier::external_body]
pub(crate) fn sha256(data: &[u8]) -> (r: Vec<u8>)
    ensures
        r@ == sha256_of(data@),
        r@.len() == 32,
{
    sha2::Sha256::digest(data).to_vec()
}

/// The lower-case hexadecimal digit for `n < 16`.
pub open spec fn hex_digit(n: u8) -> char {
    if n < 10 { ((n as u32) + 0x30) as char } else { ((n as u32) + 0x57) as char }
}

/// Lower-case hexadecimal text of `data`: two digits per byte, high nibble first.
pub open spec fn hex_lower(data: Seq<u8>) -> Seq<char>
    decreases data.len(),
{
    if data.len() == 0 {
        Seq::empty()
    } else {
        seq![hex_digit(data[0] / 16), hex_digit(data[0] % 16)] + hex_lower(data.drop_first())
    }
}

/// `hex::encode`: the lower-case hexadecimal text of `data`.
#[verifier::external_body]
pub(crate) fn hex_encode(data: &[u8]) -> (r: String)
    ensures
        r@ == hex_lower(data@),
{
    hex::encode(data)
}

/// Hexadecimal text has two characters per byte.
pub proof fn lemma_hex_len(data: Seq<u8>)
    ensures
        hex_lower(data).len() == 2 * data.len(),
    decreases data.len(),
{
    if data.len() > 0 {
        lemma_hex_len(data.drop_first());
    }
}

/// The lower-case hexadecimal SHA-256 of `data`, 64 characters long.
pub open spec fn sha256_hex(data: Seq<u8>) -> Seq<char> {
    hex_lower(sha256_of(data))
}

/// The lower-case hexadecimal SHA-256 of `data`.
pub fn sha256_hex_of(data: &[u8]) -> (r: String)
    ensures
        r@ == sha256_hex(data@),
        r@.len() == 64,
{
    let digest = sha256(data);
    proof {
        lemma_hex_len(digest@);
    }
    hex_encode(digest.as_slice())
}

/// The character of a Base64 digit `n < 64` in the standard alphabet:
/// `A`–`Z`, `a`–`z`, `0`–`9`, `+`, `/`.
pub open spec fn base64_digit(n: nat) -> char {
    if n < 26 {
        (n + 65) as char
    } else if n < 52 {
        (n + 71) as char
    } else if n < 62 {
        (n - 4) as char
    } else if n == 62 {
        '+'
    } else {
        '/'
    }
}

/// The standard (RFC 4648, padded) Base64 text of `data`: each group of
/// three bytes as four digits, a last group of one or two bytes padded with `=`.
pub open spec fn base64_standard(data: Seq<u8>) -> Seq<char>
    decreases data.len(),
{
    if data.len() == 0 {
        Seq::empty()
    } else if data.len() == 1 {
        let a = data[0] as nat;
        seq![base64_digit(a / 4), base64_digit((a % 4) * 16), '=', '=']
    } else if data.len() == 2 {
        let a = data[0] as nat;
        let b = data[1] as nat;
        seq![base64_digit(a / 4), base64_digit((a % 4) * 16 + b / 16), base64_digit((b % 16) * 4), '=']
    } else {
        let a = data[0] as nat;
        let b = data[1] as nat;
        let c = data[2] as nat;
        seq![
            base64_digit(a / 4),
            base64_digit((a % 4) * 16 + b / 16),
            base64_digit((b % 16) * 4 + c / 64),
            base64_digit(c % 64),
        ] + base64_standard(data.skip(3))
    }
}

/// `base64::engine::general_purpose::STANDARD.encode`: the padded standard Base64 text of `data`.
#[verifier::external_body]
pub(crate) fn base64_encode(data: &[u8]) -> (r: String)
    ensures
        r@ == base64_standard(data@),
{
    base64::engine::general_purpose::STANDARD.encode(data)
}

} // verus!
