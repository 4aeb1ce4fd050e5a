use ethos_zero::actor::{
    answer_generation, assembly_key, begin_generation, generation_event, retain_marked,
    GenerationOutcome, Subscribers,
};
use ethos_zero::nexus::RuntimeError;
use ethos_zero::signal::{
    FileLocation, Generation, GenerationRefusal, GenerationRequest, ProjectionFault, Refusal,
    Reply, Stream, SubscriptionRequest, SyntaxFault,
};

fn file(source: &str, path: &str) -> FileLocation {
    FileLocation {
        source_name: source.into(),
        relative_path: path.into(),
    }
}

fn subscription(source: &str, path: &str) -> SubscriptionRequest {
    SubscriptionRequest {
        file: file(source, path),
    }
}

fn request(path: &str) -> GenerationRequest {
    GenerationRequest {
        file: file("fixtures", path),
    }
}

#[test]
fn subscriptions_filter_by_file_and_unsubscribe_only_their_session() {
    let mut subscribers = Subscribers::new();
    subscribers.subscribe(1, subscription("fixtures", "a.ethos"));
    subscribers.subscribe(2, subscription("fixtures", "b.ethos"));
    subscribers.subscribe(3, subscription("fixtures", "a.ethos"));
    assert_eq!(
        subscribers.listening(&file("fixtures", "a.ethos")),
        vec![true, false, true]
    );
    subscribers.unsubscribe(1, &subscription("fixtures", "b.ethos"));
    assert_eq!(subscribers.entries.len(), 3);
    subscribers.unsubscribe(1, &subscription("fixtures", "a.ethos"));
    let sessions: Vec<u64> = subscribers.entries.iter().map(|s| s.session).collect();
    assert_eq!(sessions, vec![2, 3]);
    assert_eq!(
        subscribers.listening(&file("fixtures", "a.ethos")),
        vec![false, true]
    );
}

#[test]
fn failed_deliveries_leave_only_their_own_subscribers() {
    let mut subscribers = Subscribers::new();
    subscribers.subscribe(1, subscription("fixtures", "a.ethos"));
    subscribers.subscribe(2, subscription("fixtures", "b.ethos"));
    subscribers.subscribe(3, subscription("fixtures", "a.ethos"));
    subscribers.retain_delivered(&file("fixtures", "a.ethos"), &vec![false, false, true]);
    let sessions: Vec<u64> = subscribers.entries.iter().map(|s| s.session).collect();
    assert_eq!(sessions, vec![2, 3]);
}

#[test]
fn an_escaping_relative_path_is_refused_before_any_work() {
    assert_eq!(
        begin_generation(&request("../outside.ethos")),
        Err(Refusal::InvalidRelativePath("../outside.ethos".into()))
    );
    assert_eq!(
        begin_generation(&request("/absolute.ethos")),
        Err(Refusal::InvalidRelativePath("/absolute.ethos".into()))
    );
    assert_eq!(
        begin_generation(&request("nested/interface.ethos")),
        Ok(Stream::GenerationStarted(request("nested/interface.ethos")))
    );
}

#[test]
fn a_generation_reply_is_told_as_its_event() {
    let generation = Generation {
        file: file("fixtures", "a.ethos"),
        artifact: "a.rs".into(),
    };
    assert_eq!(
        generation_event(Reply::Generated(Generation {
            file: file("fixtures", "a.ethos"),
            artifact: "a.rs".into(),
        })),
        Stream::GenerationCompleted(generation)
    );
    assert_eq!(
        generation_event(Reply::GenerationRejected(GenerationRefusal::UnknownSource(
            "nowhere".into()
        ))),
        Stream::GenerationRefused(GenerationRefusal::UnknownSource("nowhere".into()))
    );
}

#[test]
fn each_stop_of_a_generation_has_its_refusal() {
    assert_eq!(
        answer_generation(request("a.ethos"), GenerationOutcome::ManifestUnreadable),
        Ok(Reply::GenerationRejected(GenerationRefusal::ImportUnresolved(
            file("fixtures", "a.ethos")
        )))
    );
    assert_eq!(
        answer_generation(request("a.ethos"), GenerationOutcome::UnknownSource),
        Ok(Reply::GenerationRejected(GenerationRefusal::UnknownSource(
            "fixtures".into()
        )))
    );
    assert_eq!(
        answer_generation(request("a.ethos"), GenerationOutcome::SourceNotContained),
        Ok(Reply::GenerationRejected(GenerationRefusal::InvalidRelativePath(
            "a.ethos".into()
        )))
    );
    assert_eq!(
        answer_generation(request("a.ethos"), GenerationOutcome::SourceUnreadable),
        Ok(Reply::GenerationRejected(GenerationRefusal::FileAbsent(file(
            "fixtures", "a.ethos"
        ))))
    );
    assert_eq!(
        answer_generation(request("a.ethos"), GenerationOutcome::InvalidEthos("bad".into())),
        Ok(Reply::GenerationRejected(GenerationRefusal::InvalidEthos(
            SyntaxFault {
                extent_start: 0,
                extent_end: 0,
                reason: "bad".into(),
            }
        )))
    );
    assert_eq!(
        answer_generation(
            request("a.ethos"),
            GenerationOutcome::ProjectionRejected("no".into())
        ),
        Ok(Reply::GenerationRejected(
            GenerationRefusal::RustProjectionRejected(ProjectionFault { reason: "no".into() })
        ))
    );
    assert_eq!(
        answer_generation(request("a.ethos"), GenerationOutcome::DestinationNotContained),
        Ok(Reply::GenerationRejected(GenerationRefusal::InvalidRelativePath(
            "a.ethos".into()
        )))
    );
    assert_eq!(
        answer_generation(request("a.ethos"), GenerationOutcome::Written("a.rs".into())),
        Ok(Reply::Generated(Generation {
            file: file("fixtures", "a.ethos"),
            artifact: "a.rs".into(),
        }))
    );
    assert_eq!(
        answer_generation(
            request("a.ethos"),
            GenerationOutcome::Failed(RuntimeError::Engine)
        ),
        Err(RuntimeError::Engine)
    );
}

#[test]
fn an_assembly_is_keyed_by_source_and_path() {
    assert_eq!(
        assembly_key(&file("fixtures", "nested/a.ethos")),
        "fixtures:nested/a.ethos"
    );
}

use ethos_zero::actor::{
    configuration_reply, meta_observation, sort_assemblies, MetaReply, MetaSelection,
    MetaSubscribers, Source,
};
use ethos_zero::nexus::{Configuration, ConfigurationRefusal};
use ethos_zero::signal::AssemblySummary;

#[test]
fn meta_subscriptions_are_owned_by_their_sessions() {
    let mut subscribers = MetaSubscribers::new();
    subscribers.subscribe(1, MetaSelection::Configuration);
    subscribers.subscribe(2, MetaSelection::Configuration);
    subscribers.subscribe(2, MetaSelection::Sources);
    subscribers.unsubscribe(1, MetaSelection::Sources);
    assert_eq!(subscribers.entries.len(), 3);
    subscribers.unsubscribe(2, MetaSelection::Configuration);
    let left: Vec<(u64, MetaSelection)> = subscribers
        .entries
        .iter()
        .map(|s| (s.session, s.selection))
        .collect();
    assert_eq!(
        left,
        vec![(1, MetaSelection::Configuration), (2, MetaSelection::Sources)]
    );
    assert_eq!(
        subscribers.listening(MetaSelection::Configuration),
        vec![true, false]
    );
    subscribers.retain_delivered(MetaSelection::Configuration, &vec![false, false]);
    assert_eq!(subscribers.entries.len(), 1);
    assert_eq!(subscribers.entries[0].selection, MetaSelection::Sources);
}

fn configuration(ordinary: &str, meta: &str, manifest: &str) -> Configuration {
    Configuration {
        ordinary_socket_path: ordinary.into(),
        meta_socket_path: meta.into(),
        source_manifest_path: manifest.into(),
    }
}

#[test]
fn meta_replies_follow_the_configuration() {
    let current = configuration("/o", "/m", "/s");
    match configuration_reply(&current, configuration("/o", "/m", "/t")) {
        MetaReply::Configured(c) => assert_eq!(c.source_manifest_path, "/t"),
        other => panic!("{other:?}"),
    }
    match configuration_reply(&current, configuration("/x", "/m", "/t")) {
        MetaReply::ConfigurationRejected(e) => {
            assert_eq!(e, ConfigurationRefusal::InvalidOrdinarySocketPath)
        }
        other => panic!("{other:?}"),
    }
    match meta_observation(MetaSelection::Configuration, &current, None) {
        MetaReply::ObservedConfiguration(c) => assert_eq!(c.meta_socket_path, "/m"),
        other => panic!("{other:?}"),
    }
    match meta_observation(MetaSelection::Sources, &current, None) {
        MetaReply::ConfigurationRejected(e) => {
            assert_eq!(e, ConfigurationRefusal::UnreadableSourceManifest)
        }
        other => panic!("{other:?}"),
    }
    let sources = vec![Source {
        source_name: "fixtures".into(),
        relative_path: "/src".into(),
    }];
    match meta_observation(MetaSelection::Sources, &current, Some(sources)) {
        MetaReply::ObservedSources(v) => assert_eq!(v.len(), 1),
        other => panic!("{other:?}"),
    }
}

#[test]
fn assemblies_are_observed_by_source_then_path() {
    let summary = |source: &str, path: &str| AssemblySummary {
        file: file(source, path),
        artifact: format!("{path}.rs"),
    };
    let sorted = sort_assemblies(vec![
        summary("b", "x"),
        summary("a", "z"),
        summary("ab", "a"),
        summary("a", "y"),
        summary("B", "q"),
    ]);
    let keys: Vec<(String, String)> = sorted
        .iter()
        .map(|s| (s.file.source_name.clone(), s.file.relative_path.clone()))
        .collect();
    assert_eq!(
        keys,
        vec![
            ("B".to_owned(), "q".to_owned()),
            ("a".to_owned(), "y".to_owned()),
            ("a".to_owned(), "z".to_owned()),
            ("ab".to_owned(), "a".to_owned()),
            ("b".to_owned(), "x".to_owned()),
        ]
    );
}

#[test]
fn what_each_subscriber_holds_follows_it_through_unsubscribing_and_sending() {
    let mut subscribers = Subscribers::new();
    let mut senders = vec!["one", "two", "three", "four"];
    subscribers.subscribe(1, subscription("fixtures", "a.ethos"));
    subscribers.subscribe(2, subscription("fixtures", "b.ethos"));
    subscribers.subscribe(1, subscription("fixtures", "b.ethos"));
    subscribers.subscribe(3, subscription("fixtures", "a.ethos"));
    let keep = subscribers.unsubscribe(3, &subscription("fixtures", "b.ethos"));
    assert_eq!(keep, vec![true, true, true, true]);
    let keep = subscribers.unsubscribe(1, &subscription("fixtures", "b.ethos"));
    assert_eq!(keep, vec![true, true, false, true]);
    senders = retain_marked(senders, &keep);
    assert_eq!(senders, vec!["one", "two", "four"]);
    let keep = subscribers.retain_delivered(&file("fixtures", "a.ethos"), &vec![true, false, false]);
    assert_eq!(keep, vec![true, true, false]);
    senders = retain_marked(senders, &keep);
    assert_eq!(senders, vec!["one", "two"]);
    let sessions: Vec<u64> = subscribers.entries.iter().map(|s| s.session).collect();
    assert_eq!(sessions, vec![1, 2]);
}
