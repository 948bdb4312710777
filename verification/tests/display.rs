use package_id::{PackageId, SourceId, CENTRAL_REPO};

#[test]
fn the_central_registry_is_not_shown() {
    let id = PackageId::new("foo", "1.0.0", &SourceId::from_url(CENTRAL_REPO)).unwrap();
    assert_eq!(id.to_string(), "foo v1.0.0");
    let id = PackageId::new("foo", "1.0.0", &SourceId::central()).unwrap();
    assert_eq!(id.to_string(), "foo v1.0.0");
}

#[test]
fn another_origin_is_shown() {
    let other = SourceId::from_url("http://example.com/a");
    let id = PackageId::new("foo", "1.0.0", &other).unwrap();
    assert_eq!(id.to_string(), "foo v1.0.0 (http://example.com/a)");
    assert!(id.to_string().contains(format!(" ({})", other.to_string()).as_str()));
}

#[test]
fn an_origin_close_to_the_central_one_is_shown() {
    let near = SourceId::from_url("http://rust-lang.org/central-repo/");
    let id = PackageId::new("foo", "1.0.0", &near).unwrap();
    assert_eq!(id.to_string(), "foo v1.0.0 (http://rust-lang.org/central-repo/)");
    let short = SourceId::from_url("http://rust-lang.org/central-rep");
    let id = PackageId::new("foo", "1.0.0", &short).unwrap();
    assert_eq!(id.to_string(), "foo v1.0.0 (http://rust-lang.org/central-rep)");
}

#[test]
fn the_version_is_shown_in_full() {
    let id = PackageId::new("bar", "1.2.3-rc.1+linux", &SourceId::central()).unwrap();
    assert_eq!(id.to_string(), "bar v1.2.3-rc.1+linux");
}
