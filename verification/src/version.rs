//! Semantic versions: three numbers, an optional pre-release tag and optional
//! build metadata, read by the `semver` crate and written in canonical form
//! here.

use vstd::prelude::*;
use crate::decimal::{decimal, is_digit, lemma_decimal_digits, lemma_decimal_injective, push_decimal};
use crate::text::{every, lemma_run_unique, push_str, stops, string_of};

verus! {

/// `c` may stand in an identifier: an ASCII letter, a digit or a hyphen.
pub open spec fn is_identifier_char(c: char) -> bool {
    is_digit(c) || 'a' <= c <= 'z' || 'A' <= c <= 'Z' || c == '-'
}

/// `c` may stand in a pre-release tag or in build metadata.
pub open spec fn is_tag_char(c: char) -> bool {
    is_identifier_char(c) || c == '.'
}

/// `s[from..to]` is one of the dot-separated identifiers of `s`.
pub open spec fn is_identifier_at(s: Seq<char>, from: int, to: int) -> bool {
    &&& 0 <= from < to <= s.len()
    &&& from == 0 || s[from - 1] == '.'
    &&& to == s.len() || s[to] == '.'
    &&& forall|k: int| from <= k < to ==> #[trigger] s[k] != '.'
}

/// `s` is a series of identifiers, none of them empty, with a dot between
/// each two.
pub open spec fn is_identifier_list(s: Seq<char>) -> bool {
    &&& s.len() > 0
    &&& every(s, |c: char| is_tag_char(c))
    &&& s[0] != '.'
    &&& s[s.len() - 1] != '.'
    &&& forall|i: int| 0 < i < s.len() ==> !(s[i - 1] == '.' && #[trigger] s[i] == '.')
}

/// `s` is a pre-release tag: a series of identifiers in which one made of
/// digits alone and longer than one digit does not begin with a zero.
pub open spec fn is_prerelease(s: Seq<char>) -> bool {
    &&& is_identifier_list(s)
    &&& forall|from: int, to: int|
        #![trigger is_identifier_at(s, from, to)]
        is_identifier_at(s, from, to) && from + 1 < to && s[from] == '0' ==> exists|k: int|
            from <= k < to && !is_digit(#[trigger] s[k])
}

/// `s` is build metadata: a series of identifiers. Leading zeros are allowed.
pub open spec fn is_build(s: Seq<char>) -> bool {
    is_identifier_list(s)
}

/// What a version holds.
pub struct VersionView {
    pub major: u64,
    pub minor: u64,
    pub patch: u64,
    /// The pre-release tag; empty where the version has none.
    pub pre: Seq<char>,
    /// The build metadata; empty where the version has none.
    pub build: Seq<char>,
}

impl VersionView {
    /// The pre-release tag and the build metadata, each empty or of the
    /// syntax that its place asks for.
    pub open spec fn wf(self) -> bool {
        &&& self.pre.len() == 0 || is_prerelease(self.pre)
        &&& self.build.len() == 0 || is_build(self.build)
    }

    /// What follows the three numbers: `-` and the pre-release tag where
    /// there is one, then `+` and the build metadata where there is any.
    pub open spec fn suffix(self) -> Seq<char> {
        self.pre_part() + self.build_part()
    }

    /// `-` and the pre-release tag, or nothing where there is no tag.
    pub open spec fn pre_part(self) -> Seq<char> {
        if self.pre.len() == 0 {
            Seq::empty()
        } else {
            seq!['-'] + self.pre
        }
    }

    /// `+` and the build metadata, or nothing where there is none.
    pub open spec fn build_part(self) -> Seq<char> {
        if self.build.len() == 0 {
            Seq::empty()
        } else {
            seq!['+'] + self.build
        }
    }

    /// The three numbers in base 10, with dots between them.
    pub open spec fn numbers(self) -> Seq<char> {
        numeral(self.major) + seq!['.'] + numeral(self.minor) + seq!['.'] + numeral(self.patch)
    }

    /// The canonical text: the three numbers, then the suffix.
    pub open spec fn text(self) -> Seq<char> {
        self.numbers() + self.suffix()
    }
}

/// The base-10 numeral of `n`.
pub open spec fn numeral(n: u64) -> Seq<char> {
    decimal(n as nat)
}

/// `s` is the canonical text of some version.
pub open spec fn is_version_text(s: Seq<char>) -> bool {
    exists|v: VersionView| v.wf() && #[trigger] v.text() == s
}

/// `c` may stand in the canonical text of a version.
pub open spec fn is_version_char(c: char) -> bool {
    is_tag_char(c) || c == '+'
}

/// Six sequences joined from the left are the same joined from the right.
proof fn lemma_join_six(
    a: Seq<char>,
    b: Seq<char>,
    c: Seq<char>,
    d: Seq<char>,
    e: Seq<char>,
    f: Seq<char>,
)
    ensures
        a + b + c + d + e + f == a + (b + (c + (d + (e + f)))),
{
    assert(a + b + c + d + e + f =~= a + (b + (c + (d + (e + f)))));
}

/// A numeral followed by something that is empty or begins with no digit
/// can be read off in one way only.
proof fn lemma_numeral_unique(m: u64, t1: Seq<char>, n: u64, t2: Seq<char>)
    requires
        numeral(m) + t1 == numeral(n) + t2,
        stops(t1, |c: char| is_digit(c)),
        stops(t2, |c: char| is_digit(c)),
    ensures
        m == n,
        t1 == t2,
{
    lemma_decimal_digits(m as nat);
    lemma_decimal_digits(n as nat);
    lemma_run_unique(numeral(m), t1, numeral(n), t2, |c: char| is_digit(c));
    lemma_decimal_injective(m as nat, n as nat);
}

/// Two sequences that are equal after the same first character are equal.
proof fn lemma_strip_first(c: char, a: Seq<char>, b: Seq<char>)
    requires
        seq![c] + a == seq![c] + b,
    ensures
        a == b,
{
    assert(a =~= (seq![c] + a).drop_first());
    assert(b =~= (seq![c] + b).drop_first());
}

impl VersionView {
    /// The canonical text is not empty and holds only letters, digits,
    /// hyphens, dots and plus signs.
    pub proof fn lemma_text_chars(self)
        requires
            self.wf(),
        ensures
            self.text().len() > 0,
            every(self.text(), |c: char| is_version_char(c)),
    {
        lemma_decimal_digits(self.major as nat);
        lemma_decimal_digits(self.minor as nat);
        lemma_decimal_digits(self.patch as nat);
        let p = |c: char| is_version_char(c);
        assert(every(numeral(self.major), p));
        assert(every(numeral(self.minor), p));
        assert(every(numeral(self.patch), p));
        assert(every(seq!['.'], p));
        assert(every(self.numbers(), p));
        assert(every(self.pre_part(), p));
        assert(every(self.build_part(), p));
        assert(every(self.suffix(), p));
    }

    /// Two well-formed versions with the same canonical text are the same
    /// version.
    pub proof fn lemma_text_injective(self, other: VersionView)
        requires
            self.wf(),
            other.wf(),
            self.text() == other.text(),
        ensures
            self == other,
    {
        let dot = seq!['.'];
        let digit = |c: char| is_digit(c);
        lemma_join_six(
            numeral(self.major),
            dot,
            numeral(self.minor),
            dot,
            numeral(self.patch),
            self.suffix(),
        );
        lemma_join_six(
            numeral(other.major),
            dot,
            numeral(other.minor),
            dot,
            numeral(other.patch),
            other.suffix(),
        );
        let s3 = numeral(self.patch) + self.suffix();
        let o3 = numeral(other.patch) + other.suffix();
        let s2 = numeral(self.minor) + (dot + s3);
        let o2 = numeral(other.minor) + (dot + o3);
        assert((dot + s2)[0] == '.');
        assert((dot + o2)[0] == '.');
        lemma_numeral_unique(self.major, dot + s2, other.major, dot + o2);
        lemma_strip_first('.', s2, o2);
        assert((dot + s3)[0] == '.');
        assert((dot + o3)[0] == '.');
        lemma_numeral_unique(self.minor, dot + s3, other.minor, dot + o3);
        lemma_strip_first('.', s3, o3);
        self.lemma_suffix_stops();
        other.lemma_suffix_stops();
        lemma_numeral_unique(self.patch, self.suffix(), other.patch, other.suffix());
        let before_plus = |c: char| c != '+';
        assert(every(self.pre_part(), before_plus));
        assert(every(other.pre_part(), before_plus));
        lemma_run_unique(
            self.pre_part(),
            self.build_part(),
            other.pre_part(),
            other.build_part(),
            before_plus,
        );
        if self.pre.len() > 0 {
            assert(other.pre_part().len() > 0);
            lemma_strip_first('-', self.pre, other.pre);
        } else {
            assert(other.pre_part().len() == 0);
            assert(self.pre =~= other.pre);
        }
        if self.build.len() > 0 {
            assert(other.build_part().len() > 0);
            lemma_strip_first('+', self.build, other.build);
        } else {
            assert(other.build_part().len() == 0);
            assert(self.build =~= other.build);
        }
    }

    /// The suffix is empty or begins with `-` or `+`.
    proof fn lemma_suffix_stops(self)
        ensures
            stops(self.suffix(), |c: char| is_digit(c)),
    {
        if self.pre.len() > 0 {
            assert(self.suffix()[0] == '-');
        } else if self.build.len() > 0 {
            assert(self.suffix()[0] == '+');
        }
    }
}

/// A semantic version.
#[derive(Debug, Hash)]
pub struct Version {
    major: u64,
    minor: u64,
    patch: u64,
    pre: String,
    build: String,
}

impl View for Version {
    type V = VersionView;

    closed spec fn view(&self) -> VersionView {
        VersionView {
            major: self.major,
            minor: self.minor,
            patch: self.patch,
            pre: self.pre@,
            build: self.build@,
        }
    }
}

/// `semver::Version::parse`: reads `text` as a version. As the crate
/// documents the syntax, it accepts exactly the texts of three base-10
/// numbers within `u64`, without leading zeros and with dots between them,
/// followed by an optional `-` and pre-release tag and an optional `+` and
/// build metadata; the version that it returns holds those parts, so that
/// written out again it is `text`.
#[verifier::external_body]
fn semver_parse(text: &str) -> (r: Option<Version>)
    ensures
        match r {
            Some(v) => v@.wf() && v@.text() == text@,
            None => !is_version_text(text@),
        },
{
    match semver::Version::parse(text) {
        Ok(v) => Some(
            Version {
                major: v.major,
                minor: v.minor,
                patch: v.patch,
                pre: v.pre.as_str().to_string(),
                build: v.build.as_str().to_string(),
            },
        ),
        Err(_) => None,
    }
}

impl Version {
    /// Every version is well formed.
    #[verifier::type_invariant]
    pub open spec fn inv(self) -> bool {
        self@.wf()
    }

    /// Reads `text` as a version. `None` where it is the text of no version.
    pub fn parse(text: &str) -> (r: Option<Version>)
        ensures
            r is Some <==> is_version_text(text@),
            r matches Some(v) ==> v@.wf() && v@.text() == text@,
    {
        semver_parse(text)
    }

    /// The major number.
    pub fn major(&self) -> (n: u64)
        ensures
            n == self@.major,
    {
        self.major
    }

    /// The minor number.
    pub fn minor(&self) -> (n: u64)
        ensures
            n == self@.minor,
    {
        self.minor
    }

    /// The patch number.
    pub fn patch(&self) -> (n: u64)
        ensures
            n == self@.patch,
    {
        self.patch
    }

    /// The pre-release tag; empty where the version has none.
    pub fn pre(&self) -> (s: &str)
        ensures
            s@ == self@.pre,
            self@.wf(),
    {
        proof {
            use_type_invariant(self);
        }
        self.pre.as_str()
    }

    /// The build metadata; empty where the version has none.
    pub fn build(&self) -> (s: &str)
        ensures
            s@ == self@.build,
            self@.wf(),
    {
        proof {
            use_type_invariant(self);
        }
        self.build.as_str()
    }

    /// The characters of the canonical text.
    pub fn chars(&self) -> (buf: Vec<char>)
        ensures
            buf@ == self@.text(),
            self@.wf(),
    {
        proof {
            use_type_invariant(self);
        }
        let mut buf: Vec<char> = Vec::new();
        push_decimal(&mut buf, self.major);
        assert(buf@ =~= numeral(self@.major));
        buf.push('.');
        assert(buf@ =~= numeral(self@.major) + seq!['.']);
        push_decimal(&mut buf, self.minor);
        buf.push('.');
        assert(buf@ =~= numeral(self@.major) + seq!['.'] + numeral(self@.minor) + seq!['.']);
        push_decimal(&mut buf, self.patch);
        assert(buf@ == self@.numbers());
        if self.pre.as_str().unicode_len() > 0 {
            buf.push('-');
            push_str(&mut buf, self.pre.as_str());
            assert(buf@ =~= self@.numbers() + self@.pre_part());
        } else {
            assert(buf@ =~= self@.numbers() + self@.pre_part());
        }
        if self.build.as_str().unicode_len() > 0 {
            buf.push('+');
            push_str(&mut buf, self.build.as_str());
            assert(buf@ =~= self@.numbers() + self@.pre_part() + self@.build_part());
        } else {
            assert(buf@ =~= self@.numbers() + self@.pre_part() + self@.build_part());
        }
        assert(buf@ =~= self@.text());
        buf
    }

    /// The canonical text, such as `1.2.3-rc.1+linux`.
    pub fn to_string(&self) -> (s: String)
        ensures
            s@ == self@.text(),
            self@.wf(),
    {
        let buf = self.chars();
        string_of(&buf)
    }

    /// Whether the two versions hold the same parts.
    pub fn same(&self, other: &Version) -> (b: bool)
        ensures
            b == (self@ == other@),
    {
        let b = self.major == other.major && self.minor == other.minor && self.patch
            == other.patch && self.pre == other.pre && self.build == other.build;
        proof {
            if b {
                assert(self@.pre =~= other@.pre);
                assert(self@.build =~= other@.build);
            }
        }
        b
    }
}

impl Clone for Version {
    fn clone(&self) -> (r: Version)
        ensures
            r@ == self@,
    {
        proof {
            use_type_invariant(self);
        }
        Version {
            major: self.major,
            minor: self.minor,
            patch: self.patch,
            pre: self.pre.clone(),
            build: self.build.clone(),
        }
    }
}

} // verus!
