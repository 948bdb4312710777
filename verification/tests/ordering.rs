use package_id::lexical::order_text;
use package_id::precedence::first_or;
use package_id::{PackageId, SourceId};
use std::cmp::Ordering;
use std::collections::hash_map::DefaultHasher;
use std::hash::{Hash, Hasher};

fn identity(name: &str, version: &str, url: &str) -> PackageId {
    PackageId::new(name, version, &SourceId::from_url(url)).unwrap()
}

fn std_hash(id: &PackageId) -> u64 {
    let mut hasher = DefaultHasher::new();
    id.hash(&mut hasher);
    hasher.finish()
}

#[test]
fn same_name_orders_by_version_then_by_origin() {
    let reg = "http://example.com/a";
    let reg2 = "http://example.com/b";
    let first = identity("foo", "1.0.0", reg);
    let second = identity("foo", "1.1.0", reg);
    let third = identity("foo", "1.1.0", reg2);
    assert!(first < second);
    assert!(second < third);
    assert!(first < third);
    assert_eq!(first.cmp(&second), Ordering::Less);
    assert_eq!(second.cmp(&third), Ordering::Less);
    assert_eq!(third.cmp(&first), Ordering::Greater);
    assert_eq!(first.partial_cmp(&second), Some(Ordering::Less));
}

#[test]
fn the_name_comes_before_the_version() {
    let a = identity("bar", "9.9.9", "http://example.com/z");
    let b = identity("foo", "0.0.1", "http://example.com/a");
    assert_eq!(a.cmp(&b), Ordering::Less);
    assert_eq!(b.cmp(&a), Ordering::Greater);
    let short = identity("fo", "9.9.9", "z");
    assert_eq!(short.cmp(&b), Ordering::Less);
}

#[test]
fn the_version_comes_before_the_origin() {
    let a = identity("foo", "1.0.0", "http://example.com/z");
    let b = identity("foo", "1.0.1", "http://example.com/a");
    assert_eq!(a.cmp(&b), Ordering::Less);
    let early = identity("foo", "1.0.0-alpha", "http://example.com/z");
    assert_eq!(early.cmp(&a), Ordering::Less);
    assert_eq!(identity("foo", "1.5.0", "z").cmp(&identity("foo", "1.19.0", "a")), Ordering::Less);
}

#[test]
fn equal_identities_are_in_order_equal() {
    let a = identity("foo", "1.0.0-rc.1+b", "http://example.com/a");
    let b = identity("foo", "1.0.0-rc.1+b", "http://example.com/a");
    assert!(a == b);
    assert_eq!(a.cmp(&b), Ordering::Equal);
    assert!(!(a < b) && !(a > b));
    assert!(a <= b && a >= b);
}

#[test]
fn identities_that_differ_are_not_equal() {
    let a = identity("foo", "1.0.0", "http://example.com/a");
    for other in [
        identity("fox", "1.0.0", "http://example.com/a"),
        identity("foo", "1.0.1", "http://example.com/a"),
        identity("foo", "1.0.0-a", "http://example.com/a"),
        identity("foo", "1.0.0+a", "http://example.com/a"),
        identity("foo", "1.0.0", "http://example.com/b"),
    ] {
        assert!(a != other);
        assert_ne!(a.cmp(&other), Ordering::Equal);
        assert_eq!(a.cmp(&other), other.cmp(&a).reverse());
    }
}

#[test]
fn equal_identities_have_equal_hashes() {
    let a = identity("foo", "1.0.0-rc.1+b", "http://example.com/a");
    let b = PackageId::decode(a.encode().as_str()).unwrap();
    assert!(a == b);
    assert_eq!(a.hash_code(), b.hash_code());
    assert_eq!(std_hash(&a), std_hash(&b));
    assert_eq!(std_hash(&a), std_hash(&a.clone()));
}

#[test]
fn origins_order_by_location() {
    let a = SourceId::from_url("http://example.com/a");
    let b = SourceId::from_url("http://example.com/b");
    assert_eq!(a.cmp(&b), Ordering::Less);
    assert_eq!(b.cmp(&a), Ordering::Greater);
    assert_eq!(a.cmp(&a.clone()), Ordering::Equal);
}

#[test]
fn texts_order_as_strings_do() {
    let texts = ["", "a", "ab", "abc", "abd", "b", "B", "a b", "\u{e9}", "e\u{301}", "z",
        "\u{10000}", "\u{ffff}", "foo", "fo", "fop"];
    for a in texts {
        for b in texts {
            assert_eq!(order_text(a, b), a.cmp(b), "{:?} and {:?}", a, b);
        }
    }
}

#[test]
fn the_first_order_decides_unless_equal() {
    let all = [Ordering::Less, Ordering::Equal, Ordering::Greater];
    for second in all {
        assert_eq!(first_or(Ordering::Less, second), Ordering::Less);
        assert_eq!(first_or(Ordering::Greater, second), Ordering::Greater);
        assert_eq!(first_or(Ordering::Equal, second), second);
    }
}
