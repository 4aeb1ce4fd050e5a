use ethos_zero::actor::{MetaReply, MetaSelection};
use ethos_zero::nexus::{Configuration, ConfigurationRefusal};
use ethos_zero::nexus_core::{malformed_meta_reply, malformed_ordinary_reply, CoreOutcome, NexusCore};
use ethos_zero::signal::{
    FileLocation, Generation, GenerationRefusal, GenerationRequest, ProjectionFault, Reply,
    SyntaxFault,
};

fn configuration(ordinary: &str, meta: &str, manifest: &str) -> Configuration {
    Configuration {
        ordinary_socket_path: ordinary.into(),
        meta_socket_path: meta.into(),
        source_manifest_path: manifest.into(),
    }
}

fn request(path: &str) -> GenerationRequest {
    GenerationRequest {
        file: FileLocation {
            source_name: "fixtures".into(),
            relative_path: path.into(),
        },
    }
}

#[test]
fn the_core_records_what_it_generates_in_order() {
    let mut core = NexusCore::new(configuration("/o", "/m", "sources.datom"));
    assert_eq!(core.observe(), Reply::Observed(vec![]));
    assert_eq!(
        core.generate(request("b.ethos"), CoreOutcome::Emitted),
        Reply::Generated(Generation {
            file: request("b.ethos").file,
            artifact: "src/generated/signal.rs".into(),
        })
    );
    core.generate(request("a.ethos"), CoreOutcome::Emitted);
    assert_eq!(
        core.generate(request("c.ethos"), CoreOutcome::FileAbsent),
        Reply::GenerationRejected(GenerationRefusal::FileAbsent(request("c.ethos").file))
    );
    match core.observe() {
        Reply::Observed(rows) => {
            let paths: Vec<&str> = rows.iter().map(|r| r.file.relative_path.as_str()).collect();
            assert_eq!(paths, vec!["b.ethos", "a.ethos"]);
        }
        other => panic!("{other:?}"),
    }
}

#[test]
fn each_core_refusal_has_its_reason() {
    let mut core = NexusCore::new(configuration("/o", "/m", "sources.datom"));
    assert_eq!(
        core.generate(request("a.ethos"), CoreOutcome::NotEmbodied),
        Reply::GenerationRejected(GenerationRefusal::InvalidEthos(SyntaxFault {
            extent_start: 0,
            extent_end: 0,
            reason: "Ethos source is not embodied".into(),
        }))
    );
    assert_eq!(
        core.generate(request("a.ethos"), CoreOutcome::ProjectionRejected),
        Reply::GenerationRejected(GenerationRefusal::RustProjectionRejected(ProjectionFault {
            reason: "Rust projection rejected".into(),
        }))
    );
    assert_eq!(
        malformed_ordinary_reply(),
        Reply::GenerationRejected(GenerationRefusal::InvalidEthos(SyntaxFault {
            extent_start: 0,
            extent_end: 0,
            reason: "invalid ordinary signal frame".into(),
        }))
    );
    assert!(matches!(
        malformed_meta_reply(),
        MetaReply::ConfigurationRejected(ConfigurationRefusal::InvalidSourceManifestPath)
    ));
}

#[test]
fn the_core_takes_any_complete_configuration() {
    let mut core = NexusCore::new(configuration("/o", "/m", "sources.datom"));
    assert!(matches!(
        core.configure(configuration("", "/m", "s")),
        MetaReply::ConfigurationRejected(ConfigurationRefusal::InvalidOrdinarySocketPath)
    ));
    assert!(matches!(
        core.configure(configuration("/x", "", "s")),
        MetaReply::ConfigurationRejected(ConfigurationRefusal::InvalidMetaSocketPath)
    ));
    assert!(matches!(
        core.configure(configuration("/x", "/y", "")),
        MetaReply::ConfigurationRejected(ConfigurationRefusal::InvalidSourceManifestPath)
    ));
    assert!(matches!(
        core.configure(configuration("/x", "/y", "z")),
        MetaReply::Configured(_)
    ));
    match core.observe_meta(MetaSelection::Configuration) {
        MetaReply::ObservedConfiguration(c) => {
            assert_eq!(c.ordinary_socket_path, "/x");
            assert_eq!(c.source_manifest_path, "z");
        }
        other => panic!("{other:?}"),
    }
    assert!(matches!(
        core.observe_meta(MetaSelection::Sources),
        MetaReply::ObservedSources(v) if v.is_empty()
    ));
}
