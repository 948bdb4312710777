use package_id::{PackageId, PackageIdError, SourceId, Version, CENTRAL_REPO};

#[test]
fn invalid_version_handled_nicely() {
    let repo = SourceId::from_url(CENTRAL_REPO);

    assert!(PackageId::new("foo", "1.0", &repo).is_err());
    assert!(PackageId::new("foo", "1", &repo).is_err());
    assert!(PackageId::new("foo", "bar", &repo).is_err());
    assert!(PackageId::new("foo", "", &repo).is_err());
}

#[test]
fn valid_version_is_accepted() {
    let repo = SourceId::from_url(CENTRAL_REPO);
    let id = PackageId::new("foo", "1.0.0", &repo).unwrap();
    assert_eq!(id.get_name(), "foo");
    assert_eq!(id.get_version().to_string(), "1.0.0");
    assert_eq!(id.get_version().major(), 1);
    assert_eq!(id.get_version().minor(), 0);
    assert_eq!(id.get_version().patch(), 0);
    assert_eq!(id.get_source_id().to_url(), CENTRAL_REPO);
}

#[test]
fn invalid_version_error_holds_the_text() {
    let repo = SourceId::from_url(CENTRAL_REPO);
    assert_eq!(
        PackageId::new("foo", "1.0", &repo).unwrap_err(),
        PackageIdError::InvalidVersion("1.0".to_string())
    );
    assert_eq!(
        PackageId::new("foo", "", &repo).unwrap_err(),
        PackageIdError::InvalidVersion("".to_string())
    );
    assert_eq!(
        PackageId::new("foo", " 1.0.0", &repo).unwrap_err(),
        PackageIdError::InvalidVersion(" 1.0.0".to_string())
    );
}

#[test]
fn name_is_taken_as_it_is() {
    let repo = SourceId::from_url(CENTRAL_REPO);
    let id = PackageId::new("", "1.0.0", &repo).unwrap();
    assert_eq!(id.get_name(), "");
    let id = PackageId::new("two words", "1.0.0", &repo).unwrap();
    assert_eq!(id.get_name(), "two words");
}

#[test]
fn with_version_keeps_the_parts() {
    let repo = SourceId::from_url("http://example.com/a");
    let version = Version::parse("1.2.3-rc.1+linux").unwrap();
    let id = PackageId::with_version("foo", version, &repo);
    assert_eq!(id.get_name(), "foo");
    assert_eq!(id.get_version().to_string(), "1.2.3-rc.1+linux");
    assert_eq!(id.get_version().pre(), "rc.1");
    assert_eq!(id.get_version().build(), "linux");
    assert_eq!(id.get_source_id().as_str(), "http://example.com/a");
    assert_eq!(id, PackageId::new("foo", "1.2.3-rc.1+linux", &repo).unwrap());
}

#[test]
fn clone_is_the_same_identity() {
    let repo = SourceId::from_url(CENTRAL_REPO);
    let id = PackageId::new("foo", "1.0.0", &repo).unwrap();
    let copy = id.clone();
    assert_eq!(id, copy);
    assert_eq!(copy.encode(), id.encode());
}

#[test]
fn error_descriptions() {
    let e = PackageIdError::InvalidVersion("1.0".to_string());
    assert_eq!(e.description(), "invalid version: 1.0");
    assert!(e.is_human());
    let e = PackageIdError::InvalidNamespace("a b".to_string());
    assert_eq!(e.description(), "invalid namespace: a b");
    assert!(e.is_human());
}

#[test]
fn source_id_round_trips_through_its_url() {
    let a = SourceId::from_url("http://example.com/a");
    assert_eq!(a.to_url(), "http://example.com/a");
    assert_eq!(a.to_string(), "http://example.com/a");
    assert!(a.same(&SourceId::from_url(a.to_url().as_str())));
    assert!(!a.same(&SourceId::from_url("http://example.com/b")));
    assert!(!a.is_central());
    assert!(SourceId::central().is_central());
    assert!(SourceId::from_url(CENTRAL_REPO).is_central());
    assert_eq!(SourceId::central().to_url(), "http://rust-lang.org/central-repo");
}
