use ethos_zero::checking::check;
use ethos_zero::fault::Form;
use ethos_zero::naming::{conceive_name, conceive_source};
use ethos_zero::concept::{
    AssociatedConstant, AssociatedType, Association, Capability, File, Import, KindConstraint,
    KindDeclaration, Kinds, Problem, Receiver, Sema, Signal, TypeDeclaration, TypeExpression,
    Types, Variant,
};
use ethos_zero::protoform::{Delineation, Enclosure, Head, Protoform, Separator};

fn named(n: &str) -> TypeExpression {
    TypeExpression::Named(n.to_owned())
}

fn types_file(imports: Vec<Import>, types: Vec<TypeDeclaration>) -> File {
    File::Types(Types {
        imports,
        types,
        associations: vec![],
    })
}

fn fault_of(file: &File) -> (Vec<i64>, Problem) {
    let fault = check(file).expect_err("the check faults");
    (fault.path, fault.problem)
}

#[test]
fn a_well_formed_types_file_passes() {
    let file = types_file(
        vec![Import::Single("protos".to_owned(), "Meaning".to_owned())],
        vec![
            TypeDeclaration::Struct("Record".to_owned(), vec![named("Text"), named("Entry")]),
            TypeDeclaration::Enum(
                "Entry".to_owned(),
                vec![
                    Variant::Unit("Empty".to_owned()),
                    Variant::Typed(
                        "Many".to_owned(),
                        TypeExpression::Applied("Vector".to_owned(), vec![named("Record")]),
                    ),
                ],
            ),
            TypeDeclaration::Alias("Note".to_owned(), named("Meaning")),
        ],
    );
    assert!(check(&file).is_ok());
}

#[test]
fn an_undeclared_name_is_refused_at_its_position() {
    let file = types_file(
        vec![],
        vec![TypeDeclaration::Struct(
            "Record".to_owned(),
            vec![named("Text"), named("Bogus")],
        )],
    );
    assert_eq!(fault_of(&file), (vec![0, 1, 0, 0, 1], Problem::Undeclared("Bogus".to_owned())));
}

#[test]
fn a_duplicate_variant_is_refused_at_its_second_occurrence() {
    let file = types_file(
        vec![],
        vec![TypeDeclaration::Enum(
            "Twice".to_owned(),
            vec![
                Variant::Unit("A".to_owned()),
                Variant::Unit("B".to_owned()),
                Variant::Unit("A".to_owned()),
            ],
        )],
    );
    assert_eq!(fault_of(&file), (vec![0, 1, 0, 0, 2], Problem::Duplicate("A".to_owned())));
}

#[test]
fn a_duplicate_type_or_import_is_refused() {
    let twice = types_file(
        vec![],
        vec![
            TypeDeclaration::Alias("Name".to_owned(), named("Text")),
            TypeDeclaration::Alias("Name".to_owned(), named("Integer")),
        ],
    );
    assert_eq!(fault_of(&twice), (vec![0, 1, 1], Problem::Duplicate("Name".to_owned())));
    let imported_and_declared = types_file(
        vec![Import::Multiple(
            "crate".to_owned(),
            vec!["Other".to_owned(), "Name".to_owned()],
        )],
        vec![TypeDeclaration::Alias("Name".to_owned(), named("Text"))],
    );
    assert_eq!(
        fault_of(&imported_and_declared),
        (vec![0, 1, 0], Problem::Duplicate("Name".to_owned()))
    );
    let imported_twice = types_file(
        vec![
            Import::Single("crate".to_owned(), "Name".to_owned()),
            Import::Multiple("other".to_owned(), vec!["Name".to_owned()]),
        ],
        vec![],
    );
    assert_eq!(
        fault_of(&imported_twice),
        (vec![0, 0, 1, 0, 0], Problem::Duplicate("Name".to_owned()))
    );
}

#[test]
fn a_type_applied_to_the_wrong_number_of_arguments_is_refused() {
    let file = types_file(
        vec![],
        vec![TypeDeclaration::Alias(
            "Pair".to_owned(),
            TypeExpression::Applied("Vector".to_owned(), vec![named("Text"), named("Text")]),
        )],
    );
    assert_eq!(fault_of(&file), (vec![0, 1, 0, 0], Problem::Arity(1, 2)));
    let nested = types_file(
        vec![],
        vec![TypeDeclaration::Alias(
            "Nested".to_owned(),
            TypeExpression::Applied(
                "Option".to_owned(),
                vec![TypeExpression::Applied("Text".to_owned(), vec![named("Text")])],
            ),
        )],
    );
    assert_eq!(fault_of(&nested), (vec![0, 1, 0, 0, 0], Problem::Arity(0, 1)));
}

#[test]
fn imported_names_take_any_arguments() {
    let file = types_file(
        vec![Import::Single("other".to_owned(), "Table".to_owned())],
        vec![TypeDeclaration::Alias(
            "Rows".to_owned(),
            TypeExpression::Applied("Table".to_owned(), vec![named("Text"), named("Integer")]),
        )],
    );
    assert!(check(&file).is_ok());
}

#[test]
fn an_association_must_name_a_type_and_known_kinds() {
    let unknown_type = File::Types(Types {
        imports: vec![],
        types: vec![],
        associations: vec![Association {
            ty: "Missing".to_owned(),
            kinds: vec![],
        }],
    });
    assert_eq!(fault_of(&unknown_type), (vec![0, 2, 0], Problem::Undeclared("Missing".to_owned())));
    let unknown_kind = File::Types(Types {
        imports: vec![Import::Single("crate".to_owned(), "Clonable".to_owned())],
        types: vec![TypeDeclaration::Alias("Name".to_owned(), named("Text"))],
        associations: vec![Association {
            ty: "Name".to_owned(),
            kinds: vec!["Clonable".to_owned(), "Sized".to_owned(), "Nowhere".to_owned()],
        }],
    });
    assert_eq!(fault_of(&unknown_kind), (vec![0, 2, 0, 0, 2], Problem::Undeclared("Nowhere".to_owned())));
}

fn signal(requests: Vec<Variant>, responses: Vec<Variant>, types: Vec<TypeDeclaration>) -> File {
    File::Signal(Signal {
        imports: vec![],
        requests,
        responses,
        types,
    })
}

#[test]
fn a_signal_needs_requests_and_responses() {
    assert_eq!(
        fault_of(&signal(vec![], vec![Variant::Unit("Done".to_owned())], vec![])),
        (vec![0, 1], Problem::Empty)
    );
    assert_eq!(
        fault_of(&signal(vec![Variant::Unit("Go".to_owned())], vec![], vec![])),
        (vec![0, 2], Problem::Empty)
    );
}

#[test]
fn a_signal_implies_its_request_and_response_types() {
    let refers = signal(
        vec![Variant::Typed("Again".to_owned(), named("Request"))],
        vec![Variant::Typed("Echo".to_owned(), named("Response"))],
        vec![],
    );
    assert!(check(&refers).is_ok());
    let redeclared = signal(
        vec![Variant::Unit("Go".to_owned())],
        vec![Variant::Unit("Done".to_owned())],
        vec![TypeDeclaration::Alias("Request".to_owned(), named("Text"))],
    );
    assert_eq!(fault_of(&redeclared), (vec![0, 3, 0], Problem::Duplicate("Request".to_owned())));
    let twice = signal(
        vec![Variant::Unit("Go".to_owned()), Variant::Unit("Go".to_owned())],
        vec![Variant::Unit("Done".to_owned())],
        vec![],
    );
    assert_eq!(fault_of(&twice), (vec![0, 1, 1], Problem::Duplicate("Go".to_owned())));
    let undeclared = signal(
        vec![Variant::Unit("Go".to_owned())],
        vec![Variant::Typed("Done".to_owned(), named("Nowhere"))],
        vec![],
    );
    assert_eq!(fault_of(&undeclared), (vec![0, 2, 0, 0], Problem::Undeclared("Nowhere".to_owned())));
}

#[test]
fn a_sema_file_resolves_its_own_types() {
    let file = File::Sema(Sema {
        imports: vec![],
        types: vec![TypeDeclaration::Struct(
            "Record".to_owned(),
            vec![named("Entry")],
        )],
    });
    assert_eq!(fault_of(&file), (vec![0, 1, 0, 0, 0], Problem::Undeclared("Entry".to_owned())));
}

fn capability(name: &str, inputs: Vec<TypeExpression>, yields: TypeExpression) -> Capability {
    Capability {
        name: name.to_owned(),
        receiver: Receiver::Shared,
        inputs,
        yield_type: yields,
    }
}

#[test]
fn a_kind_resolves_its_parameters_and_associated_types() {
    let file = File::Kinds(Kinds {
        imports: vec![],
        kinds: vec![
            KindDeclaration::Simple {
                name: "Processable".to_owned(),
                constraints: vec![
                    KindConstraint {
                        bounds: vec!["Sized".to_owned()],
                    },
                    KindConstraint { bounds: vec![] },
                ],
                capabilities: vec![capability("process", vec![named("A")], named("B"))],
            },
            KindDeclaration::Complex {
                name: "Store".to_owned(),
                constraints: vec![],
                superkinds: vec!["Processable".to_owned()],
                associated_types: vec![AssociatedType {
                    name: "Item".to_owned(),
                    constraints: vec![],
                }],
                associated_constants: vec![AssociatedConstant {
                    name: "LIMIT".to_owned(),
                    ty: named("Integer"),
                }],
                capabilities: vec![capability("first", vec![], named("Item"))],
            },
        ],
    });
    assert!(check(&file).is_ok());
}

#[test]
fn a_kind_refuses_what_it_cannot_resolve() {
    let beyond = File::Kinds(Kinds {
        imports: vec![],
        kinds: vec![KindDeclaration::Simple {
            name: "Processable".to_owned(),
            constraints: vec![KindConstraint { bounds: vec![] }],
            capabilities: vec![capability("process", vec![named("B")], named("Text"))],
        }],
    });
    assert_eq!(
        fault_of(&beyond),
        (vec![0, 1, 0, 0, 0, 0, 0, 0], Problem::Undeclared("B".to_owned()))
    );
    let bound = File::Kinds(Kinds {
        imports: vec![],
        kinds: vec![KindDeclaration::Simple {
            name: "Processable".to_owned(),
            constraints: vec![KindConstraint {
                bounds: vec!["Nowhere".to_owned()],
            }],
            capabilities: vec![],
        }],
    });
    assert_eq!(fault_of(&bound), (vec![0, 1, 0, 0, 0], Problem::Undeclared("Nowhere".to_owned())));
    let twice = File::Kinds(Kinds {
        imports: vec![],
        kinds: vec![KindDeclaration::Simple {
            name: "Processable".to_owned(),
            constraints: vec![],
            capabilities: vec![
                capability("process", vec![], named("Text")),
                capability("process", vec![], named("Text")),
            ],
        }],
    });
    assert_eq!(fault_of(&twice), (vec![0, 1, 0, 0, 1], Problem::Duplicate("process".to_owned())));
}

#[test]
fn a_kind_with_more_parameters_than_letters_is_refused() {
    let file = File::Kinds(Kinds {
        imports: vec![],
        kinds: vec![KindDeclaration::Simple {
            name: "Wide".to_owned(),
            constraints: (0..27).map(|_| KindConstraint { bounds: vec![] }).collect(),
            capabilities: vec![],
        }],
    });
    assert_eq!(fault_of(&file), (vec![0, 1, 0], Problem::Arity(26, 27)));
}

fn bare(s: &str) -> Protoform {
    Protoform::Bare(Head::Bare(s.to_owned()))
}

fn headed(head: &str, separator: Separator, body: Protoform) -> Protoform {
    Protoform::Headed(Head::Bare(head.to_owned()), separator, Box::new(body))
}

fn enclosed(enclosure: Enclosure, items: Vec<Protoform>) -> Protoform {
    Protoform::Enclosed(enclosure, items)
}

#[test]
fn reading_then_checking_refuses_an_undeclared_name() {
    let delineation = Delineation {
        protoforms: vec![headed(
            "Types",
            Separator::Period,
            enclosed(
                Enclosure::Braced,
                vec![
                    enclosed(Enclosure::Bracketed, vec![]),
                    enclosed(
                        Enclosure::Bracketed,
                        vec![headed(
                            "Record",
                            Separator::Period,
                            enclosed(Enclosure::Braced, vec![bare("Text"), bare("Bogus")]),
                        )],
                    ),
                    enclosed(Enclosure::Bracketed, vec![]),
                ],
            ),
        )],
    };
    let fault = delineation.conceive().expect_err("Bogus is declared nowhere");
    assert_eq!(fault.path, vec![0, 0, 1, 0, 0, 1]);
    assert_eq!(fault.problem, Problem::Undeclared("Bogus".to_owned()));
    assert_eq!(fault.describe(), "Undeclared(Bogus) at [0, 0, 1, 0, 0, 1]");
}

#[test]
fn a_kind_where_a_type_belongs_or_a_type_where_a_kind_belongs_is_refused() {
    let sized_field = types_file(
        vec![],
        vec![TypeDeclaration::Struct("Record".to_owned(), vec![named("Sized")])],
    );
    assert_eq!(fault_of(&sized_field), (vec![0, 1, 0, 0, 0], Problem::Role("Sized".to_owned())));
    let type_as_kind = File::Types(Types {
        imports: vec![],
        types: vec![TypeDeclaration::Alias("Name".to_owned(), named("Text"))],
        associations: vec![Association {
            ty: "Name".to_owned(),
            kinds: vec!["Name".to_owned()],
        }],
    });
    assert_eq!(fault_of(&type_as_kind), (vec![0, 2, 0, 0, 0], Problem::Role("Name".to_owned())));
    let kind_as_type = File::Kinds(Kinds {
        imports: vec![],
        kinds: vec![KindDeclaration::Simple {
            name: "Processable".to_owned(),
            constraints: vec![],
            capabilities: vec![capability("process", vec![], named("Processable"))],
        }],
    });
    assert_eq!(fault_of(&kind_as_type), (vec![0, 1, 0, 0, 0, 0, 0], Problem::Role("Processable".to_owned())));
}

#[test]
fn names_and_sources_are_read_as_rust_reads_them() {
    let not_a_name = types_file(
        vec![],
        vec![TypeDeclaration::Alias("not-a-name".to_owned(), named("Text"))],
    );
    assert_eq!(
        fault_of(&not_a_name),
        (vec![0, 1, 0], Problem::Name("not-a-name".to_owned()))
    );
    let keyword = types_file(
        vec![],
        vec![TypeDeclaration::Struct("Record".to_owned(), vec![named("fn")])],
    );
    assert_eq!(
        fault_of(&keyword),
        (vec![0, 1, 0, 0, 0], Problem::Name("fn".to_owned()))
    );
    let bad_source = types_file(
        vec![
            Import::Single("crate::types".to_owned(), "Entry".to_owned()),
            Import::Single("::rooted".to_owned(), "Other".to_owned()),
        ],
        vec![],
    );
    assert_eq!(
        fault_of(&bad_source),
        (vec![0, 0, 1], Problem::Name("::rooted".to_owned()))
    );
    let generic_source = types_file(
        vec![Import::Single("a::b<T>".to_owned(), "Entry".to_owned())],
        vec![],
    );
    assert_eq!(
        fault_of(&generic_source),
        (vec![0, 0, 0], Problem::Name("a::b<T>".to_owned()))
    );
}

#[test]
fn a_name_is_conceived_from_text_when_rust_reads_it_as_one() {
    assert_eq!(conceive_name("Record").expect("a name"), "Record");
    assert_eq!(conceive_name("Self").expect("the self name"), "Self");
    let fault = conceive_name("two words").expect_err("no name");
    assert!(fault.path.is_empty());
    assert_eq!(fault.problem, Problem::Name("two words".to_owned()));
    assert_eq!(conceive_source("crate::types").expect("a source"), "crate::types");
    assert_eq!(
        conceive_source("Vec<u8>").expect_err("arguments").problem,
        Problem::Name("Vec<u8>".to_owned())
    );
}

#[test]
fn a_structure_nested_past_the_limit_is_refused() {
    let mut deep = bare("Text");
    for _ in 0..140 {
        deep = enclosed(Enclosure::Bracketed, vec![deep]);
    }
    let file = headed(
        "Types",
        Separator::Period,
        enclosed(
            Enclosure::Braced,
            vec![enclosed(Enclosure::Bracketed, vec![]), deep, enclosed(Enclosure::Bracketed, vec![])],
        ),
    );
    let fault = file.conceive().expect_err("too deep");
    assert_eq!(fault.problem, Problem::Depth);
    let mut expected = vec![0, 1];
    expected.extend(std::iter::repeat(0).take(127));
    assert_eq!(fault.path, expected);
}

#[test]
fn the_root_faults_at_the_root_and_the_body_under_it() {
    let unknown = Delineation {
        protoforms: vec![headed(
            "Library",
            Separator::Period,
            enclosed(Enclosure::Braced, vec![]),
        )],
    };
    let fault = unknown.conceive().expect_err("no such root");
    assert_eq!((fault.path, fault.problem), (vec![0], Problem::Root));
    let empty = Delineation { protoforms: vec![] };
    let fault = empty.conceive().expect_err("nothing");
    assert_eq!((fault.path, fault.problem), (vec![], Problem::Root));
    let bracketed = Delineation {
        protoforms: vec![headed(
            "Types",
            Separator::Period,
            enclosed(Enclosure::Bracketed, vec![]),
        )],
    };
    let fault = bracketed.conceive().expect_err("not braced");
    assert_eq!(
        (fault.path, fault.problem),
        (vec![0, 0], Problem::Expected(Form::File))
    );
}
