use ethos_zero::fixture::{
    Channel, EnumVariantElement, Import, Imports, InputElement, Inputs, Interface,
    InterfaceFault, NamedEnum, NamedStruct, NamedTypedef, OutputElement, Outputs, Refusals,
    Streams, TypeElement, Types, Version,
};
use ethos_zero::projection::{rust_field_name, rust_type_name};

fn small() -> Interface {
    Interface {
        version: Version {
            major: 0,
            minor: 1,
            patch: 0,
        },
        channel: None,
        imports: Imports(vec![]),
        inputs: Inputs(vec![InputElement {
            operation: "Record".into(),
            payload: "Entry".into(),
        }]),
        outputs: Outputs(vec![OutputElement {
            operation: "Recorded".into(),
            payload: "Id".into(),
        }]),
        refusals: Refusals(vec![]),
        streams: Streams(vec![]),
        types: Types(vec![
            TypeElement::Typedef(NamedTypedef {
                name: "Id".into(),
                target: "Integer".into(),
            }),
            TypeElement::Struct(NamedStruct {
                name: "Entry".into(),
                fields: vec!["Id".into()],
            }),
            TypeElement::Enum(NamedEnum {
                name: "Kind".into(),
                variants: vec![
                    EnumVariantElement::Unit {
                        variant: "A".into(),
                    },
                    EnumVariantElement::Data {
                        variant: "B".into(),
                        payload: "Id".into(),
                    },
                ],
            }),
        ]),
    }
}

#[test]
fn an_interface_projects_to_its_rust_module() {
    assert_eq!(
        small().rust_source().unwrap(),
        "// @generated by ethos-monolith from Ethos source\n\n\
         pub enum Input {\n    Record(Entry),\n}\n\n\
         pub enum Output {\n    Recorded(Id),\n}\n\n\
         pub enum Refusal {\n}\n\n\
         pub enum Stream {\n}\n\n\
         pub struct Id(pub i64);\n\n\
         pub struct Entry {\n    pub id: Id,\n}\n\n\
         pub enum Kind {\n    A,\n    B(Id),\n}\n"
    );
}

#[test]
fn names_become_rust_names() {
    assert_eq!(rust_type_name(&"Integer".to_owned()), "i64");
    assert_eq!(rust_type_name(&"Vector<Vector<String>>".to_owned()), "Vec<Vec<String>>");
    assert_eq!(rust_type_name(&"Entry".to_owned()), "Entry");
    assert_eq!(rust_field_name(&"SubscriptionHandle".to_owned()), "subscription_handle");
    assert_eq!(rust_field_name(&"HTTPServer".to_owned()), "http_server");
    assert_eq!(rust_field_name(&"A__B".to_owned()), "a_b");
}

#[test]
fn validation_refuses_duplicates_and_unknown_types() {
    let mut duplicate = small();
    duplicate.types.0.push(TypeElement::Typedef(NamedTypedef {
        name: "Id".into(),
        target: "String".into(),
    }));
    assert_eq!(duplicate.validate(), Err(InterfaceFault::Duplicate));

    let mut unknown = small();
    unknown.inputs.0.push(InputElement {
        operation: "Drop".into(),
        payload: "Nothing".into(),
    });
    assert_eq!(unknown.validate(), Err(InterfaceFault::UnknownType));

    let mut lower = small();
    lower.outputs.0[0].operation = "recorded".into();
    assert_eq!(lower.rust_source().err(), Some(InterfaceFault::Symbol));

    assert_eq!(small().validate(), Ok(()));
}

#[test]
fn a_signal_module_needs_a_channel_and_no_imports() {
    assert_eq!(
        small().signal_rust_source().err(),
        Some(InterfaceFault::Binding)
    );
    let mut imported = small();
    imported.channel = Some(Channel {
        name: "Small".into(),
        contract_id: 7,
        wire_revision: 2,
    });
    imported.imports.0.push(Import {
        path: "crate::x".into(),
        symbols: vec!["Y".into()],
    });
    assert_eq!(imported.signal_rust_source().err(), Some(InterfaceFault::Shape));
    imported.imports.0.clear();
    let module = imported.signal_rust_source().unwrap();
    assert!(module.starts_with("// @generated by ethos-monolith from Ethos source\n\n"));
    assert!(module.contains("pub enum SmallWire {}"));
    assert!(module.contains("ContractId::new(NonZeroU32::new(7)"));
    assert!(module.contains("WireRevision::new(NonZeroU16::new(2)"));
    assert!(module.ends_with("pub type SmallRequest = Operation;\n"));
    syn::parse_file(&module).expect("signal projection is Rust");
}

#[test]
fn an_interface_binds_its_module_to_a_path() {
    let artifact = small()
        .rust_artifact("src/generated/small.rs".into())
        .expect("validates");
    assert_eq!(artifact.path(), "src/generated/small.rs");
    assert!(artifact.content().starts_with("// @generated by ethos-monolith"));
    assert_eq!(
        small().signal_rust_artifact("x.rs".into()).err().map(|_| ()),
        Some(())
    );
    assert_eq!(
        ethos_zero::fixture::TypeElement::shapes(),
        vec![
            ethos_zero::fixture::Shape::Bare,
            ethos_zero::fixture::Shape::DottedBraced,
            ethos_zero::fixture::Shape::DottedSquareBracketed,
        ]
    );
}

#[test]
fn a_field_name_is_its_own_field_name() {
    for name in ["EntryIdentifier", "HTTPServer", "Entry__Identifier", "__Leading", "already_snake"] {
        let once = rust_field_name(&name.to_owned());
        assert_eq!(rust_field_name(&once), once, "{name}");
    }
    assert_eq!(rust_field_name(&"HTTPServer".to_owned()), "http_server");
}
