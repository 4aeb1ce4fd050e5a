use ethos_zero::cli::{render, request};
use ethos_zero::signal::{
    AssemblySummary, FileLocation, Generation, GenerationRefusal, GenerationRequest, Reply,
    Request,
};

fn file(source: &str, path: &str) -> FileLocation {
    FileLocation {
        source_name: source.into(),
        relative_path: path.into(),
    }
}

#[test]
fn observe_and_generate_requests_are_read() {
    assert_eq!(request("Observe.Assemblies"), Ok(Request::ObserveAssemblies));
    assert_eq!(
        request("Generate.{fixtures nested/a.ethos}"),
        Ok(Request::Generate(GenerationRequest {
            file: file("fixtures", "nested/a.ethos"),
        }))
    );
}

#[test]
fn a_generate_request_needs_exactly_two_fields() {
    assert_eq!(
        request("Generate.{fixtures}"),
        Err("Generate needs source and relative path")
    );
    assert_eq!(
        request("Generate.{a b c}"),
        Err("Generate needs source and relative path")
    );
    assert_eq!(
        request("Generate.{a  b}"),
        Err("Generate needs source and relative path")
    );
    assert_eq!(
        request("Generate.{ }"),
        Ok(Request::Generate(GenerationRequest { file: file("", "") }))
    );
}

#[test]
fn other_texts_are_not_ordinary_requests() {
    for input in ["", "Observe", "Observe.Assemblies ", "Generate.{a b", "Generate{a b}"] {
        assert_eq!(request(input), Err("expected one Datomic ordinary request"));
    }
}

#[test]
fn replies_render_as_one_line() {
    assert_eq!(
        render(&Reply::Generated(Generation {
            file: file("fixtures", "a.ethos"),
            artifact: "a.rs".into(),
        })),
        "Generated.{fixtures a.rs}"
    );
    let summary = |p: &str| AssemblySummary {
        file: file("fixtures", p),
        artifact: "x.rs".into(),
    };
    assert_eq!(
        render(&Reply::Observed(vec![summary("a"), summary("b"), summary("c")])),
        "Observed.Assemblies.[3]"
    );
    assert_eq!(render(&Reply::Observed(vec![])), "Observed.Assemblies.[0]");
    assert_eq!(
        render(&Reply::GenerationRejected(GenerationRefusal::UnknownSource(
            "x".into()
        ))),
        "GenerationRejected"
    );
}
