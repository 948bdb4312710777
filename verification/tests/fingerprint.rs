use package_id::fingerprint::{hash_pair, hash_triple, token_of};
use package_id::{Metadata, PackageId, SourceId, CENTRAL_REPO};

fn identity(name: &str, version: &str, url: &str) -> PackageId {
    PackageId::new(name, version, &SourceId::from_url(url)).unwrap()
}

#[test]
fn fingerprint_of_a_known_identity() {
    let id = identity("foo", "1.0.0", CENTRAL_REPO);
    assert_eq!(id.hash_code(), 13750851633235872142);
    let m = id.generate_metadata();
    assert_eq!(m.metadata, "bed4d6b48e1fc98e");
    assert_eq!(m.extra_filename, "-bed4d6b48e1fc98e");
}

#[test]
fn fingerprint_takes_the_version_in_full() {
    let id = identity("foo", "1.2.3-rc.1+linux", "http://example.com/a");
    assert_eq!(id.generate_metadata().metadata, "b723f7b4584485ea");
    let id = identity("\u{e9}", "1.0.0", CENTRAL_REPO);
    assert_eq!(id.generate_metadata().metadata, "c7bce3a2ef79d6b1");
}

#[test]
fn fingerprint_is_the_same_each_time() {
    let id = identity("foo", "1.0.0", CENTRAL_REPO);
    assert_eq!(id.generate_metadata().metadata, id.generate_metadata().metadata);
    assert_eq!(id.generate_metadata(), id.clone().generate_metadata());
    let again = PackageId::decode(id.encode().as_str()).unwrap();
    assert_eq!(again.generate_metadata(), id.generate_metadata());
}

#[test]
fn fingerprint_tells_each_field_apart() {
    let base = identity("foo", "1.0.0", CENTRAL_REPO).generate_metadata().metadata;
    let name = identity("bar", "1.0.0", CENTRAL_REPO).generate_metadata().metadata;
    let version = identity("foo", "1.0.1", CENTRAL_REPO).generate_metadata().metadata;
    let origin = identity("foo", "1.0.0", "http://example.com/a").generate_metadata().metadata;
    assert_eq!(name, "2a5c2a87d0106623");
    assert_eq!(version, "ebd8ad4784d0d429");
    assert_eq!(origin, "fafd5203e32d73c5");
    assert_ne!(base, name);
    assert_ne!(base, version);
    assert_ne!(base, origin);
}

#[test]
fn fingerprint_keeps_the_fields_apart() {
    let a = identity("ab", "1.0.0", "c").generate_metadata().metadata;
    let b = identity("a", "1.0.0", "bc").generate_metadata().metadata;
    assert_ne!(a, b);
    assert_ne!(hash_triple("a", "b", "c"), hash_triple("ab", "", "c"));
    assert_ne!(hash_pair("ab", ""), hash_pair("a", "b"));
}

#[test]
fn the_token_is_sixteen_hexadecimal_digits() {
    assert_eq!(token_of(0), "0000000000000000");
    assert_eq!(token_of(1), "0000000000000001");
    assert_eq!(token_of(255), "00000000000000ff");
    assert_eq!(token_of(0x0123_4567_89ab_cdef), "0123456789abcdef");
    assert_eq!(token_of(u64::MAX), "ffffffffffffffff");
    let m = identity("foo", "1.0.0", CENTRAL_REPO).generate_metadata();
    assert_eq!(m.metadata.len(), 16);
    assert!(m.metadata.chars().all(|c| c.is_ascii_hexdigit() && !c.is_ascii_uppercase()));
}

#[test]
fn hashes_of_known_texts() {
    assert_eq!(hash_pair("", ""), 0xc063_bd4c_a2e4_b7df);
    assert_eq!(hash_pair("a", "b"), 16128121734305769138);
    assert_eq!(token_of(hash_triple("", "", "")), "df328838e7876fed");
}

#[test]
fn mixing_gives_a_new_token() {
    let mut m = identity("foo", "1.0.0", CENTRAL_REPO).generate_metadata();
    m.mix("A");
    assert_eq!(m.metadata, "6faeca4553d4fdf8");
    assert_eq!(m.extra_filename, "-6faeca4553d4fdf8");
    m.mix("B");
    assert_eq!(m.metadata, "9563a70c29aa8e36");
    assert_eq!(m.extra_filename, "-9563a70c29aa8e36");
}

#[test]
fn mixing_is_the_same_each_time_and_minds_the_order() {
    let start = identity("foo", "1.0.0", CENTRAL_REPO).generate_metadata();
    let mut ab = start.clone();
    ab.mix("A");
    ab.mix("B");
    let mut again = start.clone();
    again.mix("A");
    again.mix("B");
    let mut ba = start.clone();
    ba.mix("B");
    ba.mix("A");
    assert_eq!(ab, again);
    assert_eq!(ba.metadata, "d5c30cd89619e98c");
    assert_ne!(ab.metadata, ba.metadata);
    assert_ne!(ab.metadata, start.metadata);
}

#[test]
fn mixing_starts_from_the_token_alone() {
    let mut m = Metadata { metadata: "bed4d6b48e1fc98e".to_string(), extra_filename: String::new() };
    m.mix("A");
    assert_eq!(m.metadata, "6faeca4553d4fdf8");
    assert_eq!(m.extra_filename, "-6faeca4553d4fdf8");
    let mut n = Metadata::of_hash(13750851633235872142);
    assert_eq!(n.metadata, "bed4d6b48e1fc98e");
    assert_eq!(n.extra_filename, "-bed4d6b48e1fc98e");
    n.mix("");
    assert_eq!(n.metadata, token_of(hash_pair("bed4d6b48e1fc98e", "")));
}

#[test]
fn mixing_bytes_agrees_with_mixing_their_text() {
    let start = identity("foo", "1.0.0", CENTRAL_REPO).generate_metadata();
    let mut text = start.clone();
    text.mix("release x86_64");
    let mut bytes = start.clone();
    bytes.mix_bytes("release x86_64".as_bytes());
    assert_eq!(text, bytes);
    let mut a = start.clone();
    a.mix_bytes(&[65]);
    assert_eq!(a.metadata, "6faeca4553d4fdf8");
    assert_eq!(a.extra_filename, "-6faeca4553d4fdf8");
    let mut high = start.clone();
    high.mix_bytes(&[0xff, 0x00]);
    let mut other = start.clone();
    other.mix_bytes(&[0x00, 0xff]);
    assert_ne!(high.metadata, other.metadata);
    let mut none = start.clone();
    none.mix_bytes(&[]);
    let mut empty = start.clone();
    empty.mix("");
    assert_eq!(none, empty);
}
