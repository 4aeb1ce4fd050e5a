use ethos_zero::actor::opened_configuration;
use ethos_zero::nexus::{
    configure, contained_relative, frame_length, run_default, Configuration,
    ConfigurationRefusal, Paths, RuntimeError, MAX_FRAME_BYTES,
};

#[test]
fn state_fallback_uses_one_nexus_directory_and_frames_are_bounded() {
    let paths = Paths::from_roots(&"/state".to_owned(), &"/state".to_owned());
    assert_eq!(paths.ordinary_socket, "/state/ethos-zero-nexus/ethos-zero.sock");
    assert!(frame_length((MAX_FRAME_BYTES as u32).to_le_bytes()).is_ok());
    assert!(frame_length(((MAX_FRAME_BYTES as u32) + 1).to_le_bytes()).is_err());
}

#[test]
fn paths_come_from_the_environment() {
    let paths = run_default(None, Some("/home/a".into()), Some("/run/user/1".into())).unwrap();
    assert_eq!(
        paths.state_path,
        "/home/a/.local/state/ethos-zero-nexus/ethos-zero-nexus.sema"
    );
    assert_eq!(
        paths.source_manifest,
        "/home/a/.local/state/ethos-zero-nexus/sources.datom"
    );
    assert_eq!(paths.meta_socket, "/run/user/1/ethos-zero-nexus/meta-ethos-zero.sock");
    assert_eq!(run_default(None, None, None).err(), Some(RuntimeError::MissingHome));
}

#[test]
fn relative_paths_stay_under_their_root() {
    assert_eq!(contained_relative(&"a/b.ethos".to_owned()), Some("a/b.ethos".to_owned()));
    assert_eq!(contained_relative(&"./a..b".to_owned()), Some("./a..b".to_owned()));
    assert_eq!(contained_relative(&"a/../b".to_owned()), None);
    assert_eq!(contained_relative(&"..".to_owned()), None);
    assert_eq!(contained_relative(&"/etc/passwd".to_owned()), None);
    assert_eq!(contained_relative(&"".to_owned()), None);
}

fn configuration(ordinary: &str, meta: &str, manifest: &str) -> Configuration {
    Configuration {
        ordinary_socket_path: ordinary.into(),
        meta_socket_path: meta.into(),
        source_manifest_path: manifest.into(),
    }
}

#[test]
fn configuration_reopens_from_the_singleton_family() {
    let defaults = || configuration("/run/o.sock", "/run/m.sock", "/state/sources.datom");
    let changed = || configuration("/run/o.sock", "/run/m.sock", "/state/other-sources.datom");
    let fresh = opened_configuration(vec![], defaults()).expect("defaults");
    assert_eq!(fresh.source_manifest_path, "/state/sources.datom");
    assert_eq!(configure(&fresh, &changed()), None);
    let reopened = opened_configuration(vec![changed()], defaults()).expect("reopen store");
    assert_eq!(reopened.source_manifest_path, "/state/other-sources.datom");
    assert_eq!(reopened.ordinary_socket_path, "/run/o.sock");
    assert_eq!(reopened.meta_socket_path, "/run/m.sock");
    assert_eq!(
        opened_configuration(vec![changed(), changed()], defaults()).err(),
        Some(RuntimeError::ConfigurationInvariant(2))
    );
}

#[test]
fn a_configuration_that_moves_a_socket_or_omits_a_path_is_refused() {
    let current = configuration("/run/o.sock", "/run/m.sock", "/state/sources.datom");
    assert_eq!(
        configure(&current, &configuration("", "/run/m.sock", "x")),
        Some(ConfigurationRefusal::InvalidOrdinarySocketPath)
    );
    assert_eq!(
        configure(&current, &configuration("/run/o.sock", "", "x")),
        Some(ConfigurationRefusal::InvalidMetaSocketPath)
    );
    assert_eq!(
        configure(&current, &configuration("/run/o.sock", "/run/m.sock", "")),
        Some(ConfigurationRefusal::InvalidSourceManifestPath)
    );
    assert_eq!(
        configure(&current, &configuration("/run/other.sock", "/run/m.sock", "x")),
        Some(ConfigurationRefusal::InvalidOrdinarySocketPath)
    );
    assert_eq!(
        configure(&current, &configuration("/run/o.sock", "/run/other.sock", "x")),
        Some(ConfigurationRefusal::InvalidMetaSocketPath)
    );
}
