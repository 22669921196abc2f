//! Version numbers, as the `semver` crate reads and writes them.

use vstd::prelude::*;

verus! {

/// What `semver::Version::parse` makes of `text`, written out again by the
/// version's `to_string`: `None` where `text` is no version number.
pub uninterp spec fn semver_text(text: Seq<char>) -> Option<Seq<char>>;

/// Whether `text` is a version number.
pub open spec fn is_semver(text: Seq<char>) -> bool {
    semver_text(text) is Some
}

/// Calls `semver::Version::parse` on `text` and, where that succeeds,
/// `to_string` on the version. Parsing looks at `text` alone and returns an
/// error on every text that is no version number; nothing is proved of which
/// texts those are.
#[verifier::external_body]
pub(crate) fn version_text(text: &str) -> (r: Option<String>)
    ensures
        r.is_some() == semver_text(text@).is_some(),
        r matches Some(s) ==> s@ == semver_text(text@).unwrap(),
{
    match semver::Version::parse(text) {
        Ok(version) => Some(version.to_string()),
        Err(_) => None,
    }
}

} // verus!
