//! Package identities: a name, a version and an origin, fixed once made.

use std::sync::Arc;
use vstd::prelude::*;
use crate::codec::{
    canonical, cut, is_canonical, is_location, is_token, lemma_canonical_unique,
    lemma_cut_canonical, matches_grammar,
};
use crate::fingerprint::{
    fnv1a, hash_triple, lemma_token_injective, lemma_triple_units_injective, suffix_of, token,
    triple_units, Metadata,
};
use crate::source::{SourceId, CENTRAL_REPO};
use crate::text::{chars_of, push_str, string_of, string_of_range};
use crate::version::{is_version_char, is_version_text, Version, VersionView};

verus! {

/// What an identity holds.
pub struct PackageIdView {
    pub name: Seq<char>,
    pub version: VersionView,
    /// The canonical location of the origin.
    pub source: Seq<char>,
}

impl PackageIdView {
    /// The version is well formed. The name and the origin are not looked
    /// at.
    pub open spec fn wf(self) -> bool {
        self.version.wf()
    }

    /// The canonical text: the name, the version and, in round brackets, the
    /// location of the origin.
    pub open spec fn encoded(self) -> Seq<char> {
        canonical(self.name, self.version.text(), self.source)
    }

    /// The identity can be told from its canonical text: its name is not
    /// empty and holds no space, and the location of its origin is not empty
    /// and holds no closing bracket.
    pub open spec fn is_persistable(self) -> bool {
        &&& self.wf()
        &&& is_token(self.name)
        &&& is_location(self.source)
    }

    /// Whether the origin is the central registry.
    pub open spec fn is_central(self) -> bool {
        self.source == CENTRAL_REPO@
    }

    /// The text for a reader: the name, `v` and the version, and the origin
    /// in round brackets unless it is the central registry.
    pub open spec fn displayed(self) -> Seq<char> {
        let head = self.name + seq![' ', 'v'] + self.version.text();
        if self.is_central() {
            head
        } else {
            head + seq![' ', '('] + self.source + seq![')']
        }
    }

    /// The hash of the identity: that of its name, the canonical text of its
    /// version and the location of its origin.
    pub open spec fn hash(self) -> u64 {
        fnv1a(triple_units(self.name, self.version.text(), self.source))
    }

    /// The token of the identity's fingerprint: that of its hash.
    pub open spec fn digest(self) -> Seq<char> {
        token(self.hash())
    }
}

/// The version that `text` is the canonical text of.
pub open spec fn version_of(text: Seq<char>) -> VersionView {
    choose|v: VersionView| v.wf() && #[trigger] v.text() == text
}

/// The three parts that `text` is the canonical form of.
pub open spec fn parts_of(text: Seq<char>) -> (Seq<char>, Seq<char>, Seq<char>) {
    choose|parts: (Seq<char>, Seq<char>, Seq<char>)|
        is_canonical(text, parts.0, parts.1, parts.2)
}

/// Why an identity could not be made.
#[derive(Clone, Debug, PartialEq, Eq)]
pub enum PackageIdError {
    /// The text, given here, is no version.
    InvalidVersion(String),
    /// The text, given here, is no namespace. Kept for callers that check
    /// names; nothing here returns it.
    InvalidNamespace(String),
}

/// What a `PackageIdError` holds.
pub enum PackageIdFault {
    InvalidVersion(Seq<char>),
    InvalidNamespace(Seq<char>),
}

impl View for PackageIdError {
    type V = PackageIdFault;

    open spec fn view(&self) -> PackageIdFault {
        match self {
            PackageIdError::InvalidVersion(text) => PackageIdFault::InvalidVersion(text@),
            PackageIdError::InvalidNamespace(text) => PackageIdFault::InvalidNamespace(text@),
        }
    }
}

impl PackageIdFault {
    /// The message for a reader: what was wrong, and the offending text.
    pub open spec fn description(self) -> Seq<char> {
        match self {
            PackageIdFault::InvalidVersion(text) => "invalid version: "@ + text,
            PackageIdFault::InvalidNamespace(text) => "invalid namespace: "@ + text,
        }
    }
}

impl PackageIdError {
    /// The message for a reader: what was wrong, and the offending text.
    pub fn description(&self) -> (r: String)
        ensures
            r@ == self@.description(),
    {
        let mut out = String::new();
        match self {
            PackageIdError::InvalidVersion(text) => {
                out.append("invalid version: ");
                out.append(text.as_str());
            },
            PackageIdError::InvalidNamespace(text) => {
                out.append("invalid namespace: ");
                out.append(text.as_str());
            },
        }
        assert(out@ =~= self@.description());
        out
    }

    /// Whether the error is meant for the user rather than for a log: every
    /// one of these is.
    pub fn is_human(&self) -> (r: bool)
        ensures
            r,
    {
        true
    }
}

/// Why a text could not be read as an identity.
#[derive(Clone, Debug, PartialEq, Eq)]
pub enum DecodeError {
    /// The text, given here whole, is not of the form `name version
    /// (location)`.
    Malformed(String),
    /// The text is of that form, but its second part, given here, is no
    /// version.
    InvalidVersion(String),
}

/// What a `DecodeError` holds.
pub enum DecodeFault {
    Malformed(Seq<char>),
    InvalidVersion(Seq<char>),
}

impl View for DecodeError {
    type V = DecodeFault;

    open spec fn view(&self) -> DecodeFault {
        match self {
            DecodeError::Malformed(text) => DecodeFault::Malformed(text@),
            DecodeError::InvalidVersion(text) => DecodeFault::InvalidVersion(text@),
        }
    }
}

impl DecodeFault {
    /// The message for a reader: what was wrong, and the offending text.
    pub open spec fn description(self) -> Seq<char> {
        match self {
            DecodeFault::Malformed(text) => "invalid package id: "@ + text,
            DecodeFault::InvalidVersion(text) => "invalid version: "@ + text,
        }
    }
}

impl DecodeError {
    /// The message for a reader: what was wrong, and the offending text.
    pub fn description(&self) -> (r: String)
        ensures
            r@ == self@.description(),
    {
        let mut out = String::new();
        match self {
            DecodeError::Malformed(text) => {
                out.append("invalid package id: ");
                out.append(text.as_str());
            },
            DecodeError::InvalidVersion(text) => {
                out.append("invalid version: ");
                out.append(text.as_str());
            },
        }
        assert(out@ =~= self@.description());
        out
    }
}

/// What making an identity from a name, the text of a version and an origin
/// gives.
pub open spec fn constructed(name: Seq<char>, version: Seq<char>, source: Seq<char>) -> Result<
    PackageIdView,
    PackageIdFault,
> {
    if is_version_text(version) {
        Ok(PackageIdView { name, version: version_of(version), source })
    } else {
        Err(PackageIdFault::InvalidVersion(version))
    }
}

/// What reading `text` as an identity gives.
pub open spec fn decoded(text: Seq<char>) -> Result<PackageIdView, DecodeFault> {
    if !matches_grammar(text) {
        Err(DecodeFault::Malformed(text))
    } else {
        let (name, version, source) = parts_of(text);
        if !is_version_text(version) {
            Err(DecodeFault::InvalidVersion(version))
        } else {
            Ok(PackageIdView { name, version: version_of(version), source })
        }
    }
}

/// A well-formed version is the version of its canonical text.
pub proof fn lemma_version_of_text(v: VersionView)
    requires
        v.wf(),
    ensures
        is_version_text(v.text()),
        version_of(v.text()) == v,
{
    let w = version_of(v.text());
    v.lemma_text_injective(w);
}

/// The parts of a canonical form are the parts that it was made of.
pub proof fn lemma_parts_of_canonical(
    text: Seq<char>,
    name: Seq<char>,
    version: Seq<char>,
    source: Seq<char>,
)
    requires
        is_canonical(text, name, version, source),
    ensures
        matches_grammar(text),
        parts_of(text) == (name, version, source),
{
    let given = (name, version, source);
    assert(is_canonical(text, given.0, given.1, given.2));
    let parts = parts_of(text);
    lemma_canonical_unique(text, name, version, source, parts.0, parts.1, parts.2);
}

/// Reading the canonical text of an identity gives the identity back, for
/// every identity that can be told from its canonical text.
pub proof fn lemma_decode_encode(x: PackageIdView)
    requires
        x.is_persistable(),
    ensures
        decoded(x.encoded()) == Ok::<PackageIdView, DecodeFault>(x),
{
    x.version.lemma_text_chars();
    let version = x.version.text();
    assert(is_token(version)) by {
        assert forall|i: int| 0 <= i < version.len() implies #[trigger] version[i] != ' ' by {
            assert(is_version_char(version[i]));
        }
    }
    lemma_parts_of_canonical(x.encoded(), x.name, version, x.source);
    lemma_version_of_text(x.version);
}

/// What was read from a text is an identity that can be told from its
/// canonical text, and that text is the one that was read.
pub proof fn lemma_encode_decode(text: Seq<char>, x: PackageIdView)
    requires
        decoded(text) == Ok::<PackageIdView, DecodeFault>(x),
    ensures
        x.is_persistable(),
        x.encoded() == text,
{
    let (n, v, l) = choose|n: Seq<char>, v: Seq<char>, l: Seq<char>| is_canonical(text, n, v, l);
    lemma_parts_of_canonical(text, n, v, l);
    let (name, version, source) = parts_of(text);
    let v = version_of(version);
    assert(v.wf() && v.text() == version);
}

/// Two identities that can be told from their canonical texts, and have the
/// same one, are the same identity.
pub proof fn lemma_encoded_injective(x: PackageIdView, y: PackageIdView)
    requires
        x.is_persistable(),
        y.is_persistable(),
        x.encoded() == y.encoded(),
    ensures
        x == y,
{
    lemma_decode_encode(x);
    lemma_decode_encode(y);
}

/// Two identities that are the same have the same hash, and so the same
/// fingerprint.
pub proof fn lemma_equal_hash(x: PackageIdView, y: PackageIdView)
    requires
        x == y,
    ensures
        x.hash() == y.hash(),
        x.digest() == y.digest(),
{
}

/// Two well-formed identities that differ are hashed from different units,
/// and their fingerprints are the same only where the hash itself gives one
/// value for the two.
pub proof fn lemma_fingerprints_apart(x: PackageIdView, y: PackageIdView)
    requires
        x.wf(),
        y.wf(),
        x != y,
    ensures
        triple_units(x.name, x.version.text(), x.source) != triple_units(
            y.name,
            y.version.text(),
            y.source,
        ),
        x.digest() == y.digest() <==> x.hash() == y.hash(),
{
    if triple_units(x.name, x.version.text(), x.source) == triple_units(
        y.name,
        y.version.text(),
        y.source,
    ) {
        lemma_triple_units_injective(
            x.name,
            x.version.text(),
            x.source,
            y.name,
            y.version.text(),
            y.source,
        );
        x.version.lemma_text_injective(y.version);
    }
    if x.digest() == y.digest() {
        lemma_token_injective(x.hash(), y.hash());
    }
}

#[derive(Debug, Hash)]
struct PackageIdInner {
    name: String,
    version: Version,
    source_id: SourceId,
}

/// The identity of one version of a package from one origin. It is never
/// changed; a clone shares what it holds.
#[derive(Clone, Debug, Hash)]
pub struct PackageId {
    inner: Arc<PackageIdInner>,
}

impl View for PackageId {
    type V = PackageIdView;

    closed spec fn view(&self) -> PackageIdView {
        PackageIdView {
            name: self.inner.name@,
            version: self.inner.version@,
            source: self.inner.source_id@,
        }
    }
}

impl PackageId {
    /// The identity of the package `name` in the version that `version`
    /// spells, from the origin `sid`. The name is taken as it is. Where
    /// `version` is no version, the error holds it.
    pub fn new(name: &str, version: &str, sid: &SourceId) -> (r: Result<PackageId, PackageIdError>)
        ensures
            r is Ok <==> is_version_text(version@),
            match r {
                Ok(id) => Ok::<PackageIdView, PackageIdFault>(id@) == constructed(
                    name@,
                    version@,
                    sid@,
                ) && id@.wf(),
                Err(e) => Err::<PackageIdView, PackageIdFault>(e@) == constructed(
                    name@,
                    version@,
                    sid@,
                ),
            },
    {
        match Version::parse(version) {
            Some(v) => {
                proof {
                    lemma_version_of_text(v@);
                }
                Ok(PackageId::with_version(name, v, sid))
            },
            None => Err(PackageIdError::InvalidVersion(version.to_owned())),
        }
    }

    /// The identity of the package `name` in the version `version`, from the
    /// origin `sid`.
    pub fn with_version(name: &str, version: Version, sid: &SourceId) -> (r: PackageId)
        ensures
            r@ == (PackageIdView { name: name@, version: version@, source: sid@ }),
            r@.wf(),
    {
        proof {
            use_type_invariant(&version);
        }
        PackageId {
            inner: Arc::new(
                PackageIdInner { name: name.to_owned(), version, source_id: sid.clone() },
            ),
        }
    }

    /// The name of the package.
    pub fn get_name(&self) -> (r: &str)
        ensures
            r@ == self@.name,
    {
        self.inner.name.as_str()
    }

    /// The version of the package.
    pub fn get_version(&self) -> (r: &Version)
        ensures
            r@ == self@.version,
    {
        &self.inner.version
    }

    /// The origin of the package.
    pub fn get_source_id(&self) -> (r: &SourceId)
        ensures
            r@ == self@.source,
    {
        &self.inner.source_id
    }

    /// The canonical text, such as
    /// `foo 1.0.0 (http://rust-lang.org/central-repo)`.
    pub fn encode(&self) -> (r: String)
        ensures
            r@ == self@.encoded(),
            self@.wf(),
    {
        let mut buf: Vec<char> = Vec::new();
        push_str(&mut buf, self.inner.name.as_str());
        buf.push(' ');
        let mut version = self.inner.version.chars();
        buf.append(&mut version);
        buf.push(' ');
        buf.push('(');
        push_str(&mut buf, self.inner.source_id.as_str());
        buf.push(')');
        assert(buf@ =~= self@.encoded());
        string_of(&buf)
    }

    /// Reads a canonical text. The text must be a token without spaces, a
    /// space, a second such token, a space, and a bracketed rest without a
    /// closing bracket inside it; and the second token must be a version.
    pub fn decode(text: &str) -> (r: Result<PackageId, DecodeError>)
        ensures
            r is Ok <==> matches_grammar(text@) && is_version_text(parts_of(text@).1),
            match r {
                Ok(id) => Ok::<PackageIdView, DecodeFault>(id@) == decoded(text@) && id@.wf(),
                Err(e) => Err::<PackageIdView, DecodeFault>(e@) == decoded(text@),
            },
    {
        let chars = chars_of(text);
        match cut(&chars) {
            None => Err(DecodeError::Malformed(text.to_owned())),
            Some((i, j)) => {
                let name = string_of_range(&chars, 0, i);
                let version = string_of_range(&chars, i + 1, j);
                let location = string_of_range(&chars, j + 2, chars.len() - 1);
                proof {
                    lemma_cut_canonical(chars@, i as int, j as int);
                    lemma_parts_of_canonical(text@, name@, version@, location@);
                }
                match Version::parse(version.as_str()) {
                    None => Err(DecodeError::InvalidVersion(version)),
                    Some(v) => {
                        proof {
                            lemma_version_of_text(v@);
                        }
                        let sid = SourceId::from_url(location.as_str());
                        Ok(PackageId::with_version(name.as_str(), v, &sid))
                    },
                }
            },
        }
    }

    /// The text for a reader, such as `foo v1.0.0`, or
    /// `foo v1.0.0 (http://example.com/a)` for another origin than the
    /// central registry.
    pub fn to_string(&self) -> (r: String)
        ensures
            r@ == self@.displayed(),
            self@.wf(),
    {
        let mut buf: Vec<char> = Vec::new();
        push_str(&mut buf, self.inner.name.as_str());
        buf.push(' ');
        buf.push('v');
        let mut version = self.inner.version.chars();
        buf.append(&mut version);
        if !self.inner.source_id.is_central() {
            buf.push(' ');
            buf.push('(');
            let shown = self.inner.source_id.to_string();
            push_str(&mut buf, shown.as_str());
            buf.push(')');
        }
        assert(buf@ =~= self@.displayed());
        string_of(&buf)
    }

    /// The hash of the identity: that of its name, the canonical text of its
    /// version and the location of its origin. Identities that are the same
    /// have the same hash.
    pub fn hash_code(&self) -> (r: u64)
        ensures
            r == self@.hash(),
            self@.wf(),
    {
        let version = self.inner.version.to_string();
        hash_triple(self.inner.name.as_str(), version.as_str(), self.inner.source_id.as_str())
    }

    /// The fingerprint of the identity: the token of its hash, and the text
    /// that carries the token in a file name.
    pub fn generate_metadata(&self) -> (r: Metadata)
        ensures
            r.metadata@ == self@.digest(),
            r.extra_filename@ == suffix_of(self@.digest()),
            self@.wf(),
    {
        Metadata::of_hash(self.hash_code())
    }
}

} // verus!
