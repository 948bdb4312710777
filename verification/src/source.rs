//! Where a package comes from: an origin, known by its canonical location.

use vstd::prelude::*;
use crate::text::same_text;

verus! {

/// The location of the central registry, the origin that most packages come
/// from.
pub const CENTRAL_REPO: &'static str = "http://rust-lang.org/central-repo";

/// The origin of a package. Two origins are the same exactly when their
/// canonical locations are the same text.
#[derive(Debug, Hash)]
pub struct SourceId {
    location: String,
}

impl View for SourceId {
    type V = Seq<char>;

    closed spec fn view(&self) -> Seq<char> {
        self.location@
    }
}

impl SourceId {
    /// The origin at the canonical location `url`.
    pub fn from_url(url: &str) -> (r: SourceId)
        ensures
            r@ == url@,
    {
        SourceId { location: url.to_owned() }
    }

    /// The central registry.
    pub fn central() -> (r: SourceId)
        ensures
            r@ == CENTRAL_REPO@,
    {
        SourceId::from_url(CENTRAL_REPO)
    }

    /// The canonical location. Two origins with the same one are the same
    /// origin, and `from_url` of it is this origin again.
    pub fn to_url(&self) -> (r: String)
        ensures
            r@ == self@,
    {
        self.location.clone()
    }

    /// The canonical location, borrowed.
    pub fn as_str(&self) -> (r: &str)
        ensures
            r@ == self@,
    {
        self.location.as_str()
    }

    /// The text by which the origin is shown to a reader.
    pub fn to_string(&self) -> (r: String)
        ensures
            r@ == self@,
    {
        self.location.clone()
    }

    /// Whether this is the central registry.
    pub fn is_central(&self) -> (r: bool)
        ensures
            r == (self@ == CENTRAL_REPO@),
    {
        same_text(self.location.as_str(), CENTRAL_REPO)
    }

    /// Whether the two origins are the same.
    pub fn same(&self, other: &SourceId) -> (r: bool)
        ensures
            r == (self@ == other@),
    {
        same_text(self.location.as_str(), other.location.as_str())
    }
}

impl Clone for SourceId {
    fn clone(&self) -> (r: SourceId)
        ensures
            r@ == self@,
    {
        SourceId { location: self.location.clone() }
    }
}

} // verus!
