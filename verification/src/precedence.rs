//! The order of versions: by the three numbers first, then by pre-release
//! tag, then by build metadata. The numbers are compared here; two tags, or
//! two build metadata, are compared by the `semver` crate.

use std::cmp::Ordering;
use vstd::prelude::*;
use crate::text::same_text;
use crate::version::{is_build, is_prerelease, Version, VersionView};

verus! {

/// How `semver` orders the pre-release tags `a` and `b`, an empty tag
/// standing for a release.
pub uninterp spec fn prerelease_order(a: Seq<char>, b: Seq<char>) -> Ordering;

/// How `semver` orders the build metadata `a` and `b`.
pub uninterp spec fn build_order(a: Seq<char>, b: Seq<char>) -> Ordering;

/// `Ord::cmp` of `semver::Prerelease`, on the tags made by
/// `semver::Prerelease::new` of `a` and of `b`. The crate documents a total
/// order on pre-release tags: the result depends on the two texts alone, and
/// is `Equal` for the same text only.
#[verifier::external_body]
fn semver_prerelease_order(a: &str, b: &str) -> (r: Ordering)
    requires
        a@.len() == 0 || is_prerelease(a@),
        b@.len() == 0 || is_prerelease(b@),
    ensures
        r == prerelease_order(a@, b@),
        (r == Ordering::Equal) == (a@ == b@),
{
    let x = semver::Prerelease::new(a).unwrap();
    let y = semver::Prerelease::new(b).unwrap();
    x.cmp(&y)
}

/// `Ord::cmp` of `semver::BuildMetadata`, on the values made by
/// `semver::BuildMetadata::new` of `a` and of `b`. The crate documents a
/// total order on build metadata: the result depends on the two texts alone,
/// and is `Equal` for the same text only.
#[verifier::external_body]
fn semver_build_order(a: &str, b: &str) -> (r: Ordering)
    requires
        a@.len() == 0 || is_build(a@),
        b@.len() == 0 || is_build(b@),
    ensures
        r == build_order(a@, b@),
        (r == Ordering::Equal) == (a@ == b@),
{
    let x = semver::BuildMetadata::new(a).unwrap();
    let y = semver::BuildMetadata::new(b).unwrap();
    x.cmp(&y)
}

/// The order of two numbers.
pub open spec fn number_order(a: u64, b: u64) -> Ordering {
    if a < b {
        Ordering::Less
    } else if a == b {
        Ordering::Equal
    } else {
        Ordering::Greater
    }
}

/// An order between two things known to differ: `Less` where `o` is, and
/// `Greater` otherwise.
pub open spec fn apart(o: Ordering) -> Ordering {
    if o == Ordering::Less {
        Ordering::Less
    } else {
        Ordering::Greater
    }
}

/// `first`, unless it is `Equal`: then `second`.
pub open spec fn or_else(first: Ordering, second: Ordering) -> Ordering {
    if first == Ordering::Equal {
        second
    } else {
        first
    }
}

/// The order of two pre-release tags: `Equal` for the same tag, and as
/// `semver` orders them for two tags that differ.
pub open spec fn tag_order(a: Seq<char>, b: Seq<char>) -> Ordering {
    if a == b {
        Ordering::Equal
    } else {
        apart(prerelease_order(a, b))
    }
}

/// The order of two build metadata: `Equal` for the same, and as `semver`
/// orders them for two that differ.
pub open spec fn metadata_order(a: Seq<char>, b: Seq<char>) -> Ordering {
    if a == b {
        Ordering::Equal
    } else {
        apart(build_order(a, b))
    }
}

/// The order of two versions: the first of major, minor, patch, pre-release
/// tag and build metadata in which they differ decides.
pub open spec fn version_order(a: VersionView, b: VersionView) -> Ordering {
    or_else(
        number_order(a.major, b.major),
        or_else(
            number_order(a.minor, b.minor),
            or_else(
                number_order(a.patch, b.patch),
                or_else(tag_order(a.pre, b.pre), metadata_order(a.build, b.build)),
            ),
        ),
    )
}

/// Two versions are in order `Equal` exactly when they are the same.
pub proof fn lemma_version_order_equal(a: VersionView, b: VersionView)
    ensures
        version_order(a, b) == Ordering::Equal <==> a == b,
{
}

/// Compares two numbers.
fn order_numbers(a: u64, b: u64) -> (r: Ordering)
    ensures
        r == number_order(a, b),
{
    if a < b {
        Ordering::Less
    } else if a == b {
        Ordering::Equal
    } else {
        Ordering::Greater
    }
}

/// Compares two pre-release tags.
fn order_tags(a: &Version, b: &Version) -> (r: Ordering)
    ensures
        r == tag_order(a@.pre, b@.pre),
{
    let x = a.pre();
    let y = b.pre();
    if same_text(x, y) {
        Ordering::Equal
    } else {
        semver_prerelease_order(x, y)
    }
}

/// Compares two build metadata.
fn order_metadata(a: &Version, b: &Version) -> (r: Ordering)
    ensures
        r == metadata_order(a@.build, b@.build),
{
    let x = a.build();
    let y = b.build();
    if same_text(x, y) {
        Ordering::Equal
    } else {
        semver_build_order(x, y)
    }
}

/// `first` where it decides, `second` where `first` is `Equal`.
pub fn first_or(first: Ordering, second: Ordering) -> (r: Ordering)
    ensures
        r == or_else(first, second),
{
    match first {
        Ordering::Equal => second,
        Ordering::Less => Ordering::Less,
        Ordering::Greater => Ordering::Greater,
    }
}

impl Version {
    /// The order of two versions, given the order `tags` of their
    /// pre-release tags and the order `metadata` of their build metadata:
    /// the numbers decide first, then `tags`, then `metadata`.
    pub fn cmp_given(&self, other: &Version, tags: Ordering, metadata: Ordering) -> (r: Ordering)
        ensures
            r == or_else(
                number_order(self@.major, other@.major),
                or_else(
                    number_order(self@.minor, other@.minor),
                    or_else(number_order(self@.patch, other@.patch), or_else(tags, metadata)),
                ),
            ),
    {
        first_or(
            order_numbers(self.major(), other.major()),
            first_or(
                order_numbers(self.minor(), other.minor()),
                first_or(order_numbers(self.patch(), other.patch()), first_or(tags, metadata)),
            ),
        )
    }

    /// Compares two versions.
    pub fn cmp(&self, other: &Version) -> (r: Ordering)
        ensures
            r == version_order(self@, other@),
    {
        self.cmp_given(other, order_tags(self, other), order_metadata(self, other))
    }
}

} // verus!
