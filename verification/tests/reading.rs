use ethos_zero::concept::{File, Problem, TypeDeclaration, TypeExpression};
use ethos_zero::fault::Form;
use ethos_zero::protoform::{Delineation, Enclosure, Head, Protoform, Separator};

fn bare(s: &str) -> Protoform {
    Protoform::Bare(Head::Bare(s.to_owned()))
}

fn headed(head: &str, body: Protoform) -> Protoform {
    Protoform::Headed(Head::Bare(head.to_owned()), Separator::Period, Box::new(body))
}

fn braced(items: Vec<Protoform>) -> Protoform {
    Protoform::Enclosed(Enclosure::Braced, items)
}

fn bracketed(items: Vec<Protoform>) -> Protoform {
    Protoform::Enclosed(Enclosure::Bracketed, items)
}

/// `Types.{ [] [ Record.{ Text Integer } ] [] }`
fn record_types() -> Protoform {
    headed(
        "Types",
        braced(vec![
            bracketed(vec![]),
            bracketed(vec![headed(
                "Record",
                braced(vec![bare("Text"), bare("Integer")]),
            )]),
            bracketed(vec![]),
        ]),
    )
}

#[test]
fn a_types_file_reads_its_three_sections() {
    let file = record_types().conceive().expect("reads");
    match &file {
        File::Types(types) => {
            assert!(types.imports.is_empty());
            assert!(types.associations.is_empty());
            assert_eq!(types.types.len(), 1);
            match &types.types[0] {
                TypeDeclaration::Struct(name, fields) => {
                    assert_eq!(name, "Record");
                    assert_eq!(fields.len(), 2);
                    assert!(matches!(&fields[0], TypeExpression::Named(n) if n == "Text"));
                    assert!(matches!(&fields[1], TypeExpression::Named(n) if n == "Integer"));
                }
                other => panic!("struct expected, found {other:?}"),
            }
        }
        other => panic!("types expected, found {other:?}"),
    }
}

#[test]
fn a_read_file_protosizes_back_into_what_reads_as_it() {
    let file = record_types().conceive().expect("reads");
    let delineation = file.protosize();
    let again = delineation.conceive().expect("reads again");
    assert_eq!(format!("{again:?}"), format!("{file:?}"));
}

#[test]
fn the_root_must_be_one_of_the_four_heads() {
    let fault = headed("Unknown", braced(vec![]))
        .conceive()
        .expect_err("no such file variant");
    assert_eq!(fault.problem, Problem::Root);
    assert_eq!(fault.describe(), "Root at []");
    let two = Delineation {
        protoforms: vec![record_types(), record_types()],
    };
    assert_eq!(two.conceive().expect_err("two roots").problem, Problem::Root);
}

#[test]
fn a_wrong_section_count_is_refused() {
    let fault = headed("Types", braced(vec![bracketed(vec![]), bracketed(vec![])]))
        .conceive()
        .expect_err("two sections");
    assert_eq!(fault.problem, Problem::Arity(3, 2));
}

#[test]
fn a_root_joined_by_another_separator_is_refused_as_such() {
    let fault = Protoform::Headed(
        Head::Bare("Types".to_owned()),
        Separator::Colon,
        Box::new(braced(vec![bracketed(vec![]), bracketed(vec![]), bracketed(vec![])])),
    )
    .conceive()
    .expect_err("a colon joins no root");
    assert_eq!(fault.problem, Problem::Separator(Separator::Colon));
    assert_eq!(fault.describe(), "Separator(:) at []");
}

fn kinds_with_capability(body: Protoform) -> Protoform {
    headed(
        "Kinds",
        braced(vec![
            bracketed(vec![]),
            bracketed(vec![headed(
                "Processable",
                bracketed(vec![headed("go", body)]),
            )]),
        ]),
    )
}

#[test]
fn a_capability_must_yield_exactly_one_type() {
    let none = kinds_with_capability(bracketed(vec![])).conceive().expect_err("no yield");
    assert_eq!((none.path, none.problem), (vec![0, 1, 0, 0, 0, 0], Problem::Yield));
    let two = kinds_with_capability(bracketed(vec![bare("Text"), bare("Integer")]))
        .conceive()
        .expect_err("two yields");
    assert_eq!((two.path, two.problem), (vec![0, 1, 0, 0, 0, 0], Problem::Arity(1, 2)));
    let not_bracketed = kinds_with_capability(bare("Text"))
        .conceive()
        .expect_err("a bare body");
    assert_eq!(
        (not_bracketed.path, not_bracketed.problem),
        (vec![0, 1, 0, 0, 0, 0], Problem::Expected(Form::Capability))
    );
    let one = kinds_with_capability(bracketed(vec![bare("Text")]))
        .conceive()
        .expect("one yield");
    assert!(matches!(one, File::Kinds(_)));
}
