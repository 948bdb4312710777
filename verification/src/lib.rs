//! Package identities and build fingerprints.
//!
//! A package identity names one version of a package taken from one origin.
//! It is immutable, comparable, totally ordered field by field, and has a
//! single-line canonical text that reads back as the same identity. A
//! fingerprint is a short token derived from an identity, into which further
//! build context can be folded.

pub mod codec;
pub mod decimal;
pub mod fingerprint;
pub mod lexical;
pub mod ordering;
pub mod package_id;
pub mod precedence;
pub mod source;
pub mod text;
pub mod version;

pub use fingerprint::Metadata;
pub use package_id::{DecodeError, PackageId, PackageIdError};
pub use source::{SourceId, CENTRAL_REPO};
pub use version::Version;
