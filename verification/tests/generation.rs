use ethos_zero::concept::{
    AssociatedType, Capability, File, Import, KindConstraint, KindDeclaration, Kinds, Receiver,
    Signal, TypeDeclaration, TypeExpression, Types, Variant,
};
use ethos_zero::generation::{emit_tokens, is_rust_ident, Generating};

fn named(n: &str) -> TypeExpression {
    TypeExpression::Named(n.to_owned())
}

#[test]
fn struct_emits_tuple_struct_tokens() {
    let file = File::Types(Types {
        imports: vec![],
        types: vec![TypeDeclaration::Struct(
            "Record".to_owned(),
            vec![named("Text"), named("Integer")],
        )],
        associations: vec![],
    });
    let text = emit_tokens(&file).unwrap();
    assert!(text.starts_with("# ! [ allow ( dead_code ) ] # [ derive ( Clone , Debug , PartialEq , Eq ) ] pub struct Record ( pub protos :: Text , pub protos :: Integer , ) ; "));
    let rust = file.generate().unwrap();
    assert!(rust.contains("pub struct Record (pub protos :: Text , pub protos :: Integer ,) ;"), "{rust}");
}

#[test]
fn imported_name_resolves_to_its_source() {
    let file = File::Types(Types {
        imports: vec![Import::Single("protos".to_owned(), "Thing".to_owned())],
        types: vec![TypeDeclaration::Enum(
            "Choice".to_owned(),
            vec![Variant::Unit("A".to_owned()), Variant::Typed("B".to_owned(), named("Thing"))],
        )],
        associations: vec![],
    });
    let rust = file.generate().unwrap();
    assert!(rust.contains("B (protos :: Thing)"), "{rust}");
}

#[test]
fn kind_bounds_are_qualified_through_the_imports() {
    let file = File::Kinds(Kinds {
        imports: vec![Import::Multiple(
            "super".to_owned(),
            vec![
                "Clonable".to_owned(),
                "Sendable".to_owned(),
                "Serializable".to_owned(),
            ],
        )],
        kinds: vec![
            KindDeclaration::Simple {
                name: "Processable".to_owned(),
                constraints: vec![
                    KindConstraint {
                        bounds: vec!["Clonable".to_owned(), "Sendable".to_owned()],
                    },
                    KindConstraint {
                        bounds: vec!["Serializable".to_owned()],
                    },
                ],
                capabilities: vec![Capability {
                    name: "process".to_owned(),
                    receiver: Receiver::Shared,
                    inputs: vec![],
                    yield_type: named("Text"),
                }],
            },
            KindDeclaration::Complex {
                name: "Store".to_owned(),
                constraints: vec![],
                superkinds: vec!["Clonable".to_owned(), "Sized".to_owned()],
                associated_types: vec![AssociatedType {
                    name: "Item".to_owned(),
                    constraints: vec!["Sendable".to_owned()],
                }],
                associated_constants: vec![],
                capabilities: vec![],
            },
        ],
    });
    let text = emit_tokens(&file).unwrap();
    assert!(
        text.contains(
            "pub trait Processable < A : super :: Clonable + super :: Sendable , B : super :: Serializable > "
        ),
        "{text}"
    );
    assert!(text.contains("pub trait Store : super :: Clonable + Sized "), "{text}");
    assert!(text.contains("type Item : super :: Sendable ; "), "{text}");
}

#[test]
fn raw_identifiers_are_accepted_where_the_constructor_accepts_them() {
    for accepted in ["type", "Record", "_x", "r#type", "r#Record"] {
        assert!(is_rust_ident(&accepted.to_owned()), "{accepted}");
    }
    for refused in ["", "12", "r#", "r#self", "r#super", "r#crate", "r#Self", "r#_", "r#1", "a-b"] {
        assert!(!is_rust_ident(&refused.to_owned()), "{refused}");
    }
}

fn applied(c: &str, args: Vec<TypeExpression>) -> TypeExpression {
    TypeExpression::Applied(c.to_owned(), args)
}

#[test]
fn generates_tuple_variants_and_boxes_only_where_rust_needs_it() {
    let file = File::Types(Types {
        imports: vec![],
        types: vec![
            TypeDeclaration::Enum(
                "Tree".to_owned(),
                vec![
                    Variant::Typed("Leaf".to_owned(), named("Integer")),
                    Variant::InlineStruct("Node".to_owned(), vec![named("Tree"), named("Tree")]),
                    Variant::Typed("Many".to_owned(), applied("Vector", vec![named("Tree")])),
                    Variant::Typed("Maybe".to_owned(), applied("Option", vec![named("Tree")])),
                ],
            ),
            TypeDeclaration::Struct(
                "Chain".to_owned(),
                vec![named("Text"), applied("Option", vec![named("Chain")])],
            ),
        ],
        associations: vec![],
    });
    let text = emit_tokens(&file).unwrap();
    assert!(text.contains("Leaf ( protos :: Integer ) , "), "{text}");
    assert!(text.contains("Node ( Box < Tree > , Box < Tree > , ) , "), "{text}");
    assert!(text.contains("Many ( Vec < Tree > ) , "), "{text}");
    assert!(text.contains("Maybe ( Box < Option < Tree > > ) , "), "{text}");
    assert!(
        text.contains("pub struct Chain ( pub protos :: Text , pub Box < Option < Chain > > , ) ; "),
        "{text}"
    );
    assert!(!text.contains("TreeNode"), "{text}");
    assert!(text.contains(
        "Self :: Node ( f0 , f1 , ) => datomic :: Datom :: Variant ( stringify ! ( Node ) . to_owned ( ) , protos :: Separator :: Period , Some ( Box :: new ( datomic :: Datom :: Struct ( vec ! [ protos :: Conceivable :: < datomic :: Datom > :: conceive ( & * * f0 ) "
    ), "{text}");
    assert!(text.contains(
        "Ok ( Self :: Node ( Box :: new ( < Tree as datomic :: Datomic > :: incorporate_from ( iter . next ( ) . unwrap ( ) ) ? ) , "
    ), "{text}");
    let rust = file.generate().unwrap();
    assert!(rust.contains("Node (Box < Tree > , Box < Tree > ,)"), "{rust}");
    assert!(!rust.contains("TreeNode"), "{rust}");
}

#[test]
fn a_signal_file_carries_the_wire_envelope_and_rkyv_derives() {
    let file = File::Signal(Signal {
        imports: vec![],
        requests: vec![Variant::Typed("Ping".to_owned(), named("Text"))],
        responses: vec![Variant::Unit("Pong".to_owned())],
        types: vec![TypeDeclaration::Struct("Note".to_owned(), vec![named("Text")])],
    });
    let text = emit_tokens(&file).unwrap();
    let rkyv = "# [ derive ( rkyv :: Archive , rkyv :: Serialize , rkyv :: Deserialize ) ] ";
    assert!(
        text.contains(&format!("{rkyv}# [ derive ( Clone , Debug , PartialEq , Eq ) ] pub struct Note ")),
        "{text}"
    );
    assert!(text.contains(&format!("{rkyv}# [ derive (")), "{text}");
    assert!(text.contains("pub enum Request { Ping ( protos :: Text ) , } "), "{text}");
    assert!(text.contains("pub struct Frame ( pub Version , pub Body ) ; "), "{text}");
    assert!(
        text.contains("pub enum Body { Request ( Request ) , Reply ( Response ) , Refusal ( Refusal ) , } "),
        "{text}"
    );
    assert!(
        text.contains("pub enum Refusal { VersionMismatch ( Version , Version ) , Unreadable , } "),
        "{text}"
    );
    assert!(text.contains("pub struct Version ( pub u16 , pub u16 , pub u16 ) ; "), "{text}");
    let rust = file.generate().unwrap();
    assert!(rust.contains("pub struct Frame (pub Version , pub Body) ;"), "{rust}");
    assert!(rust.contains("rkyv :: Archive"), "{rust}");
}
