//! Semantic versions and version requirements, as the `semver` crate reads them.
use vstd::prelude::*;

verus! {

/// Whether `semver::Version::parse` accepts the text.
pub uninterp spec fn semver_version_parses(text: Seq<char>) -> bool;

/// Whether `semver::VersionReq::parse` accepts the text.
pub uninterp spec fn semver_requirement_parses(text: Seq<char>) -> bool;

/// Whether the parsed requirement matches the parsed version (`VersionReq::matches`).
pub uninterp spec fn semver_requirement_matches(requirement: Seq<char>, version: Seq<char>) -> bool;

/// The precedence of two parsed versions (`Ord` on `semver::Version`): -1, 0 or 1.
pub uninterp spec fn semver_order(left: Seq<char>, right: Seq<char>) -> int;

/// Calls `semver::Version::parse` and reports whether it succeeded; the result is
/// the name `semver_version_parses` of the text.
#[verifier::external_body]
pub(crate) fn version_parses(text: &str) -> (ok: bool)
    ensures
        ok == semver_version_parses(text@),
{
    semver::Version::parse(text).is_ok()
}

/// Calls `semver::VersionReq::parse` and reports whether it succeeded; the result is
/// the name `semver_requirement_parses` of the text.
#[verifier::external_body]
pub(crate) fn requirement_parses(text: &str) -> (ok: bool)
    ensures
        ok == semver_requirement_parses(text@),
{
    semver::VersionReq::parse(text).is_ok()
}

/// Calls `semver::VersionReq::matches` on the parsed requirement and version. Both
/// texts parse (the `requires`), so the parse results are only converted; the
/// answer is the name `semver_requirement_matches` of the two texts.
#[verifier::external_body]
pub(crate) fn requirement_matches(requirement: &str, version: &str) -> (m: bool)
    requires
        semver_requirement_parses(requirement@),
        semver_version_parses(version@),
    ensures
        m == semver_requirement_matches(requirement@, version@),
{
    match (semver::VersionReq::parse(requirement), semver::Version::parse(version)) {
        (Ok(requirement), Ok(version)) => requirement.matches(&version),
        _ => false,
    }
}

/// Calls `Ord::cmp` on two parsed `semver::Version`s (both texts parse, the
/// `requires`) and returns -1, 0 or 1 for less, equal and greater: the name
/// `semver_order` of the two texts.
#[verifier::external_body]
pub(crate) fn compare_versions(left: &str, right: &str) -> (order: i8)
    requires
        semver_version_parses(left@),
        semver_version_parses(right@),
    ensures
        order == semver_order(left@, right@),
        -1 <= order <= 1,
{
    match (semver::Version::parse(left), semver::Version::parse(right)) {
        (Ok(left), Ok(right)) => match left.cmp(&right) {
            core::cmp::Ordering::Less => -1,
            core::cmp::Ordering::Equal => 0,
            core::cmp::Ordering::Greater => 1,
        },
        _ => 0,
    }
}

} // verus!
