use ethos_zero::fixture::{
    Block, Channel, EnumVariantElement, InputElement, InterfaceFault, NamedEnum, NamedStruct,
    NamedTypedef, OutputElement, RefusalElement, Shape, StreamElement, TypeElement, Version,
};
use ethos_zero::realization::realize_interface;
use ethos_zero::textualization::textualize_document;

fn bare(text: &str) -> Block {
    Block {
        shape: Shape::Bare,
        head: None,
        body: text.to_owned(),
        children: vec![],
    }
}

fn container(shape: Shape, head: Option<&str>, children: Vec<Block>) -> Block {
    Block {
        shape,
        head: head.map(|h| h.to_owned()),
        body: String::new(),
        children,
    }
}

fn words(shape: Shape, head: &str, values: &[&str]) -> Block {
    container(shape, Some(head), values.iter().map(|v| bare(v)).collect())
}

fn section(elements: &[&str]) -> Block {
    container(
        Shape::SquareBracketed,
        None,
        elements.iter().map(|e| bare(e)).collect(),
    )
}

/// The blocks the psyche fixture delineates into.
fn psyche_blocks() -> Vec<Block> {
    let types = container(
        Shape::SquareBracketed,
        None,
        vec![
            words(Shape::DottedSquareBracketed, "Layer", &["Spirit", "Intent", "Vision"]),
            bare("Description.String"),
            bare("EntryIdentifier.String"),
            bare("SubscriptionHandle.Integer"),
            words(Shape::DottedBraced, "Entry", &["Layer", "Description"]),
            words(
                Shape::DottedSquareBracketed,
                "AdmissionRefusal",
                &["Duplicate", "InvalidRequest"],
            ),
            words(
                Shape::DottedSquareBracketed,
                "RecordEvent",
                &["RecordRecorded.EntryIdentifier"],
            ),
        ],
    );
    vec![
        words(Shape::DottedBraced, "Interface", &["0", "1", "0"]),
        words(Shape::DottedBraced, "Channel", &["Psyche", "1", "1"]),
        container(Shape::SquareBracketed, None, vec![]),
        container(
            Shape::Braced,
            None,
            vec![
                section(&[
                    "Record.Entry",
                    "Subscribe.Layer",
                    "Unsubscribe.SubscriptionHandle",
                ]),
                section(&[
                    "Recorded.EntryIdentifier",
                    "Subscribed.SubscriptionHandle",
                    "Unsubscribed.SubscriptionHandle",
                ]),
                section(&[
                    "AdmissionRejected.AdmissionRefusal",
                    "UnknownSubscription.SubscriptionHandle",
                ]),
                section(&["RecordChange.RecordEvent"]),
                types,
            ],
        ),
    ]
}

fn op<T>(make: fn(String, String) -> T, a: &str, b: &str) -> T {
    make(a.into(), b.into())
}

#[test]
fn fixture_realizes_and_projects_with_walk_evidence() {
    let realized = realize_interface(&psyche_blocks()).expect("fixture realizes");
    assert!(realized.imports.0.is_empty());
    assert_eq!(
        realized.version,
        Version {
            major: 0,
            minor: 1,
            patch: 0,
        }
    );
    let channel: &Channel = realized.channel.as_ref().expect("channel");
    assert_eq!(channel.name, "Psyche");
    assert_eq!(channel.contract_id, 1);
    assert_eq!(channel.wire_revision, 1);
    let inputs: Vec<(String, String)> = realized
        .inputs
        .0
        .iter()
        .map(|e: &InputElement| (e.operation.clone(), e.payload.clone()))
        .collect();
    assert_eq!(
        inputs,
        vec![
            op(|a, b| (a, b), "Record", "Entry"),
            op(|a, b| (a, b), "Subscribe", "Layer"),
            op(|a, b| (a, b), "Unsubscribe", "SubscriptionHandle"),
        ]
    );
    let outputs: Vec<(String, String)> = realized
        .outputs
        .0
        .iter()
        .map(|e: &OutputElement| (e.operation.clone(), e.payload.clone()))
        .collect();
    assert_eq!(
        outputs,
        vec![
            ("Recorded".to_owned(), "EntryIdentifier".to_owned()),
            ("Subscribed".to_owned(), "SubscriptionHandle".to_owned()),
            ("Unsubscribed".to_owned(), "SubscriptionHandle".to_owned()),
        ]
    );
    let refusals: Vec<(String, String)> = realized
        .refusals
        .0
        .iter()
        .map(|e: &RefusalElement| (e.operation.clone(), e.payload.clone()))
        .collect();
    assert_eq!(
        refusals,
        vec![
            ("AdmissionRejected".to_owned(), "AdmissionRefusal".to_owned()),
            ("UnknownSubscription".to_owned(), "SubscriptionHandle".to_owned()),
        ]
    );
    let streams: Vec<(String, String)> = realized
        .streams
        .0
        .iter()
        .map(|e: &StreamElement| (e.operation.clone(), e.payload.clone()))
        .collect();
    assert_eq!(streams, vec![("RecordChange".to_owned(), "RecordEvent".to_owned())]);
    assert_eq!(realized.types.0.len(), 7);
    match &realized.types.0[0] {
        TypeElement::Enum(NamedEnum { name, variants }) => {
            assert_eq!(name, "Layer");
            let names: Vec<&str> = variants
                .iter()
                .map(|v| match v {
                    EnumVariantElement::Unit { variant } => variant.as_str(),
                    EnumVariantElement::Data { .. } => panic!("unit variant expected"),
                })
                .collect();
            assert_eq!(names, vec!["Spirit", "Intent", "Vision"]);
        }
        other => panic!("enum expected, found {other:?}"),
    }
    match &realized.types.0[1] {
        TypeElement::Typedef(NamedTypedef { name, target }) => {
            assert_eq!((name.as_str(), target.as_str()), ("Description", "String"));
        }
        other => panic!("typedef expected, found {other:?}"),
    }
    match &realized.types.0[3] {
        TypeElement::Typedef(NamedTypedef { name, target }) => {
            assert_eq!(
                (name.as_str(), target.as_str()),
                ("SubscriptionHandle", "Integer")
            );
        }
        other => panic!("typedef expected, found {other:?}"),
    }
    match &realized.types.0[4] {
        TypeElement::Struct(NamedStruct { name, fields }) => {
            assert_eq!(name, "Entry");
            assert_eq!(fields, &vec!["Layer".to_owned(), "Description".to_owned()]);
        }
        other => panic!("struct expected, found {other:?}"),
    }
    match &realized.types.0[6] {
        TypeElement::Enum(NamedEnum { name, variants }) => {
            assert_eq!(name, "RecordEvent");
            match &variants[0] {
                EnumVariantElement::Data { variant, payload } => {
                    assert_eq!(
                        (variant.as_str(), payload.as_str()),
                        ("RecordRecorded", "EntryIdentifier")
                    );
                }
                other => panic!("data variant expected, found {other:?}"),
            }
        }
        other => panic!("enum expected, found {other:?}"),
    }

    let projected = textualize_document(&realized).expect("fixture projects");
    assert_eq!(projected.len(), 4);
    assert_eq!(projected[0].head.as_deref(), Some("Interface"));
    assert_eq!(projected[0].body, "0 1 0");
    assert_eq!(projected[1].head.as_deref(), Some("Channel"));
    assert_eq!(projected[1].body, "Psyche 1 1");
    assert_eq!(projected[2].shape, Shape::SquareBracketed);
    assert!(projected[2].children.is_empty());
    let sections = &projected[3];
    assert_eq!(sections.shape, Shape::Braced);
    assert_eq!(sections.children.len(), 5);
    assert_eq!(sections.children[0].children[1].body, "Subscribe.Layer");
    assert_eq!(sections.children[4].children[6].head.as_deref(), Some("RecordEvent"));
    assert_eq!(
        sections.children[4].children[6].children[0].body,
        "RecordRecorded.EntryIdentifier"
    );
    let round_trip = realize_interface(&{
        let mut blocks = projected;
        blocks[0] = words(Shape::DottedBraced, "Interface", &["0", "1", "0"]);
        blocks[1] = words(Shape::DottedBraced, "Channel", &["Psyche", "1", "1"]);
        blocks
    })
    .expect("projection realizes");
    assert_eq!(round_trip.version, realized.version);
    assert_eq!(round_trip.types.0.len(), realized.types.0.len());
    assert_eq!(round_trip.inputs.0.len(), realized.inputs.0.len());
}

#[test]
fn fixture_projects_a_signal_module() {
    let interface = realize_interface(&psyche_blocks()).expect("fixture realizes");
    let generated = interface.signal_rust_source().expect("projection succeeds");
    assert!(generated.contains("pub enum PsycheWire {}"));
    assert!(generated.contains("signal_channel!"));
    syn::parse_file(&generated).expect("signal projection is Rust");
}

#[test]
fn malformed_fixture_is_rejected_without_a_fake_tree() {
    for inputs in [
        section(&["Bad.lower"]),
        section(&["Record.Entry<Integer>"]),
        container(
            Shape::SquareBracketed,
            None,
            vec![words(Shape::DottedBraced, "Record", &["Entry"])],
        ),
    ] {
        let blocks = vec![
            words(Shape::DottedBraced, "Interface", &["0", "1", "0"]),
            words(Shape::DottedBraced, "Channel", &["Fixture", "1", "1"]),
            container(Shape::SquareBracketed, None, vec![]),
            container(
                Shape::Braced,
                None,
                vec![inputs, section(&[]), section(&[]), section(&[]), section(&[])],
            ),
        ];
        assert!(realize_interface(&blocks).is_err());
    }
}

#[test]
fn realization_answers_the_first_fault_in_block_order() {
    let mut blocks = psyche_blocks();
    blocks.truncate(3);
    assert_eq!(
        realize_interface(&blocks).err(),
        Some(InterfaceFault::MissingPosition)
    );
    let mut blocks = psyche_blocks();
    blocks.push(section(&[]));
    assert_eq!(
        realize_interface(&blocks).err(),
        Some(InterfaceFault::ExtraPosition)
    );
    let mut blocks = psyche_blocks();
    blocks[0] = words(Shape::DottedBraced, "Interface", &["0", "1", "70000"]);
    assert_eq!(realize_interface(&blocks).err(), Some(InterfaceFault::Version));
    let mut blocks = psyche_blocks();
    blocks[0] = words(Shape::DottedBraced, "Interface", &["0", "+1"]);
    assert_eq!(
        realize_interface(&blocks).err(),
        Some(InterfaceFault::MissingPosition)
    );
    let mut blocks = psyche_blocks();
    blocks[1] = words(Shape::DottedBraced, "Channel", &["Psyche", "0", "1"]);
    assert_eq!(realize_interface(&blocks).err(), Some(InterfaceFault::Binding));
    let mut blocks = psyche_blocks();
    blocks[1] = words(Shape::DottedBraced, "Channel", &["psyche", "1", "1"]);
    assert_eq!(realize_interface(&blocks).err(), Some(InterfaceFault::Symbol));
}

#[test]
fn an_interface_without_a_channel_realizes_its_imports() {
    let mut blocks = psyche_blocks();
    blocks.remove(1);
    blocks[1] = container(
        Shape::SquareBracketed,
        None,
        vec![words(Shape::DottedSquareBracketed, "crate::types", &["Entry", "Layer"])],
    );
    let realized = realize_interface(&blocks).expect("realizes");
    assert!(realized.channel.is_none());
    assert_eq!(realized.imports.0.len(), 1);
    assert_eq!(realized.imports.0[0].path, "crate::types");
    assert_eq!(
        realized.imports.0[0].symbols,
        vec!["Entry".to_owned(), "Layer".to_owned()]
    );
}

#[test]
fn realization_refuses_an_operation_whose_payload_names_no_declared_type() {
    let mut blocks = psyche_blocks();
    blocks[3].children[0] = section(&["Record.Entry", "Forget.Nothing"]);
    assert_eq!(
        realize_interface(&blocks).err(),
        Some(InterfaceFault::UnknownType)
    );
}

#[test]
fn realization_refuses_a_type_declared_twice() {
    let mut blocks = psyche_blocks();
    blocks[3].children[4].children.push(bare("Description.Integer"));
    assert_eq!(
        realize_interface(&blocks).err(),
        Some(InterfaceFault::Duplicate)
    );
}

#[test]
fn textualization_refuses_an_interface_that_fails_its_check() {
    let mut interface = realize_interface(&psyche_blocks()).expect("fixture realizes");
    interface.inputs.0.push(InputElement {
        operation: "Forget".to_owned(),
        payload: "Nothing".to_owned(),
    });
    assert_eq!(
        textualize_document(&interface).err(),
        Some(InterfaceFault::UnknownType)
    );
}
