use package_id::{DecodeError, PackageId, SourceId, CENTRAL_REPO};
use regex::Regex;

fn identity(name: &str, version: &str, url: &str) -> PackageId {
    PackageId::new(name, version, &SourceId::from_url(url)).unwrap()
}

#[test]
fn encode_gives_the_canonical_text() {
    assert_eq!(
        identity("foo", "1.0.0", CENTRAL_REPO).encode(),
        "foo 1.0.0 (http://rust-lang.org/central-repo)"
    );
    assert_eq!(
        identity("bar", "1.2.3-rc.1+linux", "git+http://example.com/bar#abc").encode(),
        "bar 1.2.3-rc.1+linux (git+http://example.com/bar#abc)"
    );
}

#[test]
fn decode_reads_the_parts() {
    let id = PackageId::decode("foo 1.0.0 (http://example.com/a)").unwrap();
    assert_eq!(id.get_name(), "foo");
    assert_eq!(id.get_version().to_string(), "1.0.0");
    assert_eq!(id.get_source_id().to_url(), "http://example.com/a");
}

#[test]
fn decode_of_encode_is_the_identity() {
    let ids = [
        identity("foo", "1.0.0", CENTRAL_REPO),
        identity("foo", "0.0.0", "x"),
        identity("a", "18446744073709551615.0.1-x.7.z+001.b", "registry+http://example.com/(a b"),
        identity("\u{e9}t\u{e9}", "1.0.0-alpha", "path+file:///home/\u{4f60}\u{597d}"),
        identity("foo(bar)", "1.0.0+meta", "(("),
        identity("foo\n", "1.0.0", "a\nb"),
    ];
    for id in ids {
        let text = id.encode();
        let back = PackageId::decode(text.as_str()).unwrap();
        assert_eq!(back, id);
        assert_eq!(back.encode(), text);
    }
}

#[test]
fn malformed_texts_are_refused() {
    let texts = [
        "",
        " ",
        "foo",
        "foo1.0.0(url)",
        "foo 1.0.0 url",
        "foo 1.0.0",
        "foo 1.0.0 ",
        "foo 1.0.0 (",
        "foo 1.0.0 ()",
        "foo 1.0.0 (url",
        "foo 1.0.0 url)",
        "foo 1.0.0 (url) ",
        "foo 1.0.0 (url)x",
        "foo 1.0.0 (u)rl)",
        "foo 1.0.0 (url))",
        "foo 1.0.0  (url)",
        "foo  1.0.0 (url)",
        " foo 1.0.0 (url)",
        "foo 1.0.0(url)",
        "foo  (url)",
        " 1.0.0 (url)",
        "foo 1.0 .0 (url)",
    ];
    for text in texts {
        assert_eq!(
            PackageId::decode(text).unwrap_err(),
            DecodeError::Malformed(text.to_string()),
            "{:?}",
            text
        );
    }
}

#[test]
fn texts_with_a_bad_version_are_refused() {
    assert_eq!(
        PackageId::decode("foo 1.0 (url)").unwrap_err(),
        DecodeError::InvalidVersion("1.0".to_string())
    );
    assert_eq!(
        PackageId::decode("foo bar (url)").unwrap_err(),
        DecodeError::InvalidVersion("bar".to_string())
    );
    assert_eq!(
        PackageId::decode("foo 01.0.0 (http://example.com/a b)").unwrap_err(),
        DecodeError::InvalidVersion("01.0.0".to_string())
    );
}

#[test]
fn the_three_failures_named_for_decoding() {
    assert!(PackageId::decode("foo1.0.0(url)").is_err());
    assert!(PackageId::decode("foo 1.0 (url)").is_err());
    assert!(PackageId::decode("foo 1.0.0 url").is_err());
}

#[test]
fn an_identity_that_its_text_cannot_tell_is_not_read_back() {
    let spaced = identity("two words", "1.0.0", "url");
    assert!(PackageId::decode(spaced.encode().as_str()).is_err());
    let unnamed = identity("", "1.0.0", "url");
    assert!(PackageId::decode(unnamed.encode().as_str()).is_err());
    let nowhere = identity("foo", "1.0.0", "");
    assert!(PackageId::decode(nowhere.encode().as_str()).is_err());
    let closed = identity("foo", "1.0.0", "a)b");
    assert!(PackageId::decode(closed.encode().as_str()).is_err());
}

#[test]
fn the_grammar_is_that_of_the_pattern() {
    let pattern = Regex::new(r"^([^ ]+) ([^ ]+) \(([^\)]+)\)$").unwrap();
    let texts = [
        "foo 1.0.0 (url)",
        "foo 1.0.0 (http://example.com/a b)",
        "foo 1.0.0 ((())",
        "foo\n 1.0.0 (a\nb)",
        "foo 1.0.0 (url)\n",
        "f 0.0.0 (u)",
        "\u{e9} 1.0.0 (\u{4f60})",
        "foo 1.0.0 (url",
        "foo 1.0.0 (u)r)",
        "foo 1.0.0 ()",
        "foo  1.0.0 (url)",
        "foo 1.0.0  (url)",
        "foo 1.0.0 [url]",
        "foo 1.0 (url)",
        "foo x (url)",
        "(a) (b) (c)",
        "a b (c)",
        "",
        "   ",
        "a b c",
        "a b ( )",
        "a 1.0.0 ( )",
    ];
    for text in texts {
        let ours = PackageId::decode(text);
        match pattern.captures(text) {
            None => assert_eq!(ours.unwrap_err(), DecodeError::Malformed(text.to_string())),
            Some(found) => match semver::Version::parse(&found[2]) {
                Err(_) => {
                    assert_eq!(ours.unwrap_err(), DecodeError::InvalidVersion(found[2].to_string()))
                }
                Ok(version) => {
                    let id = ours.unwrap();
                    assert_eq!(id.get_name(), &found[1]);
                    assert_eq!(id.get_version().to_string(), version.to_string());
                    assert_eq!(id.get_source_id().to_url(), &found[3]);
                }
            },
        }
    }
}

#[test]
fn decode_error_descriptions() {
    let e = PackageId::decode("foo 1.0.0 url").unwrap_err();
    assert_eq!(e.description(), "invalid package id: foo 1.0.0 url");
    let e = PackageId::decode("foo 1.0 (url)").unwrap_err();
    assert_eq!(e.description(), "invalid version: 1.0");
}
