use ethos_zero::artifact::{BuildError, CargoEthosSourceMetadata, GeneratedArtifact};

#[test]
fn missing_artifact_is_stale() {
    let path = "ethos-monolith-freshness-missing.rs".to_owned();
    let error = GeneratedArtifact::new(path.clone(), "generated".into())
        .assert_matches_existing(None)
        .expect_err("missing artifact is stale");
    assert!(matches!(&error, BuildError::StaleGeneratedArtifact { path: found } if found == &path));
}

#[test]
fn differing_artifact_is_stale_and_equal_one_is_fresh() {
    let artifact = GeneratedArtifact::new("a.rs".into(), "generated".into());
    assert!(artifact
        .assert_matches_existing(Some(&"generated".to_owned()))
        .is_ok());
    assert!(artifact
        .assert_matches_existing(Some(&"older".to_owned()))
        .is_err());
    assert_eq!(artifact.path(), "a.rs");
    assert_eq!(artifact.content(), "generated");
}

#[test]
fn ethos_source_metadata_normalizes_the_links_name() {
    assert_eq!(
        CargoEthosSourceMetadata::new("signal-domain".into()).dependency_source_directory_variable(),
        "DEP_SIGNAL_DOMAIN_ETHOS_SOURCE_DIR"
    );
}

#[test]
fn cargo_lines_name_the_directory_and_the_variable() {
    assert_eq!(
        CargoEthosSourceMetadata::owned_source_directory_line(&"/src/ethos".to_owned()),
        "cargo::metadata=ethos-source-dir=/src/ethos"
    );
    assert_eq!(
        CargoEthosSourceMetadata::new("a-b2".into()).dependency_rerun_line(),
        "cargo::rerun-if-env-changed=DEP_A_B2_ETHOS_SOURCE_DIR"
    );
}
