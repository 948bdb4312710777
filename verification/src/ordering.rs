//! Equality and order of identities: by name first, then by version, then
//! by origin.

use std::cmp::Ordering;
use vstd::prelude::*;
use crate::lexical::{lemma_text_order_equal, order_text, text_order};
use crate::package_id::{PackageId, PackageIdView};
use crate::precedence::{first_or, lemma_version_order_equal, or_else, version_order};
use crate::source::SourceId;
use crate::text::same_text;

verus! {

/// The order of two identities: the first of name, version and origin in
/// which they differ decides. Names and origins are ordered as texts.
pub open spec fn identity_order(a: PackageIdView, b: PackageIdView) -> Ordering {
    or_else(
        text_order(a.name, b.name),
        or_else(version_order(a.version, b.version), text_order(a.source, b.source)),
    )
}

/// Two identities are in order `Equal` exactly when they are the same: the
/// order agrees with equality.
pub proof fn lemma_identity_order_equal(a: PackageIdView, b: PackageIdView)
    ensures
        identity_order(a, b) == Ordering::Equal <==> a == b,
{
    lemma_text_order_equal(a.name, b.name);
    lemma_version_order_equal(a.version, b.version);
    lemma_text_order_equal(a.source, b.source);
}

/// Two identities with different names are in the order of their names.
pub proof fn lemma_name_decides(a: PackageIdView, b: PackageIdView)
    requires
        a.name != b.name,
    ensures
        identity_order(a, b) == text_order(a.name, b.name),
        identity_order(a, b) != Ordering::Equal,
{
    lemma_text_order_equal(a.name, b.name);
}

/// Two identities with the same name and different versions are in the order
/// of their versions, whatever their origins.
pub proof fn lemma_version_decides(a: PackageIdView, b: PackageIdView)
    requires
        a.name == b.name,
        a.version != b.version,
    ensures
        identity_order(a, b) == version_order(a.version, b.version),
        identity_order(a, b) != Ordering::Equal,
{
    lemma_text_order_equal(a.name, b.name);
    lemma_version_order_equal(a.version, b.version);
}

/// Two identities with the same name and the same version are in the order
/// of their origins.
pub proof fn lemma_origin_decides(a: PackageIdView, b: PackageIdView)
    requires
        a.name == b.name,
        a.version == b.version,
    ensures
        identity_order(a, b) == text_order(a.source, b.source),
{
    lemma_text_order_equal(a.name, b.name);
    lemma_version_order_equal(a.version, b.version);
}

impl SourceId {
    /// Compares two origins, by their canonical locations as texts.
    pub fn cmp(&self, other: &SourceId) -> (r: Ordering)
        ensures
            r == text_order(self@, other@),
    {
        order_text(self.as_str(), other.as_str())
    }
}

impl PackageId {
    /// Compares two identities.
    pub fn cmp(&self, other: &PackageId) -> (r: Ordering)
        ensures
            r == identity_order(self@, other@),
    {
        first_or(
            order_text(self.get_name(), other.get_name()),
            first_or(
                self.get_version().cmp(other.get_version()),
                self.get_source_id().cmp(other.get_source_id()),
            ),
        )
    }
}

impl PartialEq for PackageId {
    fn eq(&self, other: &PackageId) -> (r: bool) {
        same_text(self.get_name(), other.get_name()) && self.get_version().same(
            other.get_version(),
        ) && self.get_source_id().same(other.get_source_id())
    }
}

impl vstd::std_specs::cmp::PartialEqSpecImpl for PackageId {
    open spec fn obeys_eq_spec() -> bool {
        true
    }

    open spec fn eq_spec(&self, other: &PackageId) -> bool {
        self@ == other@
    }
}

impl Eq for PackageId {

}

impl PartialOrd for PackageId {
    fn partial_cmp(&self, other: &PackageId) -> (r: Option<Ordering>) {
        Some(self.cmp(other))
    }
}

impl vstd::std_specs::cmp::PartialOrdSpecImpl for PackageId {
    open spec fn obeys_partial_cmp_spec() -> bool {
        true
    }

    open spec fn partial_cmp_spec(&self, other: &PackageId) -> Option<Ordering> {
        Some(identity_order(self@, other@))
    }
}

} // verus!
