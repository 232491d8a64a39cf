use pyflow::error::SubstrateError;
use pyflow::registry::ReleaseArtifact;
use pyflow::registry::ReleaseCatalog;
use pyflow::registry::catalog_from_entries;
use pyflow::registry::registry_url;
use pyflow::registry::response_outcome;

fn artifact(packagetype: &str, requires_python: Option<&str>) -> ReleaseArtifact {
    ReleaseArtifact::new(
        false,
        String::from("68b329da9893e34099c7d8ad5cb9c940"),
        String::from(packagetype),
        String::from("py3"),
        requires_python.map(String::from),
        String::from("https://files.example.org/pkg.tar.gz"),
    )
}

#[test]
fn registry_url_follows_the_json_endpoint_template() {
    assert_eq!(registry_url("requests"), "https://pypi.org/pypi/requests/json");
    assert_eq!(registry_url("a"), "https://pypi.org/pypi/a/json");
}

#[test]
fn artifacts_without_optional_fields_are_accepted() {
    // `requires_python` is optional in the registry's schema; an artifact
    // missing it still builds and is stored like any other.
    let a = artifact("sdist", None);
    assert_eq!(a.requires_python, None);
    let catalog = catalog_from_entries(vec![(String::from("1.0"), vec![a])]);
    assert_eq!(catalog.len(), 1);
    let stored = catalog.get(&String::from("1.0")).unwrap();
    assert_eq!(stored.len(), 1);
    assert_eq!(stored[0].requires_python, None);
}

#[test]
fn insert_and_get_preserve_artifact_order() {
    let mut catalog = ReleaseCatalog::new();
    assert_eq!(catalog.len(), 0);
    let added = catalog.insert(
        String::from("2.1"),
        vec![artifact("sdist", Some(">=3.6")), artifact("bdist_wheel", Some(">=3.6"))],
    );
    assert!(added);
    assert_eq!(catalog.len(), 1);
    assert!(catalog.contains_version(&String::from("2.1")));
    assert!(!catalog.contains_version(&String::from("2.2")));
    let stored = catalog.get(&String::from("2.1")).unwrap();
    assert_eq!(stored.len(), 2);
    assert_eq!(stored[0].packagetype, "sdist");
    assert_eq!(stored[1].packagetype, "bdist_wheel");
    assert_eq!(stored[0].requires_python.as_deref(), Some(">=3.6"));
}

#[test]
fn inserting_a_version_twice_keeps_the_first_entry() {
    let mut catalog = ReleaseCatalog::new();
    assert!(catalog.insert(String::from("1.0"), vec![artifact("sdist", None)]));
    assert!(!catalog.insert(String::from("1.0"), vec![artifact("bdist_wheel", None)]));
    assert_eq!(catalog.len(), 1);
    let stored = catalog.get(&String::from("1.0")).unwrap();
    assert_eq!(stored[0].packagetype, "sdist");
}

#[test]
fn missing_versions_are_not_found() {
    let catalog = ReleaseCatalog::new();
    assert!(catalog.get(&String::from("1.0")).is_none());
}

#[test]
fn catalog_from_entries_keeps_order_and_first_occurrences() {
    let entries = vec![
        (String::from("0.9"), vec![artifact("sdist", None)]),
        (String::from("1.0"), vec![artifact("sdist", None), artifact("bdist_wheel", None)]),
        (String::from("0.9"), vec![artifact("bdist_wheel", None)]),
    ];
    let catalog = catalog_from_entries(entries);
    assert_eq!(catalog.len(), 2);
    let zero_nine = catalog.get(&String::from("0.9")).unwrap();
    assert_eq!(zero_nine.len(), 1);
    assert_eq!(zero_nine[0].packagetype, "sdist");
    let one_oh = catalog.get(&String::from("1.0")).unwrap();
    assert_eq!(one_oh.len(), 2);
}

#[test]
fn non_success_status_is_a_failure_never_a_silent_empty_catalog() {
    let r = response_outcome(404, Some(ReleaseCatalog::new()));
    assert_eq!(r.err(), Some(SubstrateError::RegistryFetchFailed));
    let r = response_outcome(404, None);
    assert_eq!(r.err(), Some(SubstrateError::RegistryFetchFailed));
    let r = response_outcome(500, Some(ReleaseCatalog::new()));
    assert_eq!(r.err(), Some(SubstrateError::RegistryFetchFailed));
}

#[test]
fn undecodable_body_is_a_failure_even_with_success_status() {
    let r = response_outcome(200, None);
    assert_eq!(r.err(), Some(SubstrateError::RegistryFetchFailed));
}

#[test]
fn success_status_with_decoded_body_is_ok() {
    let mut catalog = ReleaseCatalog::new();
    catalog.insert(String::from("1.0"), vec![artifact("sdist", None)]);
    let r = response_outcome(200, Some(catalog));
    assert_eq!(r.unwrap().len(), 1);
    let r = response_outcome(299, Some(ReleaseCatalog::new()));
    assert!(r.is_ok());
}
