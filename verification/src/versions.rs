use vstd::prelude::*;

verus! {

/// `semver::Version::parse` accepts `text`.
pub uninterp spec fn semver_valid(text: Seq<char>) -> bool;

/// The text that the parsed version displays as (`Display` for `semver::Version`).
pub uninterp spec fn semver_text(text: Seq<char>) -> Seq<char>;

/// The version parsed from `a` precedes the one parsed from `b` (`<` for `semver::Version`).
pub uninterp spec fn semver_less(a: Seq<char>, b: Seq<char>) -> bool;

/// `semver::Version::parse(text)`, displayed again.
#[verifier::external_body]
pub(crate) fn canonical_version(text: &str) -> (r: Option<String>)
    ensures
        r is Some <==> semver_valid(text@),
        r matches Some(v) ==> v@ == semver_text(text@),
{
    match semver::Version::parse(text) {
        Ok(version) => Some(version.to_string()),
        Err(_) => None,
    }
}

/// Whether the version `a` precedes the version `b`; none when either does not parse.
#[verifier::external_body]
pub(crate) fn version_less(a: &str, b: &str) -> (r: Option<bool>)
    ensures
        r == (if semver_valid(a@) && semver_valid(b@) {
            Some(semver_less(a@, b@))
        } else {
            None
        }),
{
    match (semver::Version::parse(a), semver::Version::parse(b)) {
        (Ok(first), Ok(second)) => Some(first < second),
        _ => None,
    }
}

} // verus!
