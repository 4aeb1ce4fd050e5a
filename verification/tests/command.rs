use ethos_zero::command::{
    delineation_fault, file_fault, generate_command, generated_message, output_path,
    rejoin_text, usage_fault,
};
use ethos_zero::protoform::{Delineation, Enclosure, Head, Protoform, Separator};

fn bare(s: &str) -> Protoform {
    Protoform::Bare(Head::Bare(s.to_owned()))
}

fn headed(head: &str, sep: Separator, body: Protoform) -> Protoform {
    Protoform::Headed(Head::Bare(head.to_owned()), sep, Box::new(body))
}

fn one(pf: Protoform) -> Delineation {
    Delineation {
        protoforms: vec![pf],
    }
}

#[test]
fn rejects_flags() {
    assert!(generate_command(&one(bare("--help"))).is_err());
}

#[test]
fn rejects_unknown_command() {
    let result = generate_command(&one(headed(
        "Unknown",
        Separator::Period,
        Protoform::Enclosed(Enclosure::Braced, vec![bare("/tmp/x"), bare("/tmp/y")]),
    )));
    assert!(result.is_err());
    assert!(result.unwrap_err().contains("unknown command"));
}

#[test]
fn rejoin_recovers_dotted_path() {
    let pf = headed("/abs/file", Separator::Period, bare("ethos"));
    assert_eq!(rejoin_text(&pf), "/abs/file.ethos");
}

#[test]
fn rejoin_recovers_plain_path() {
    assert_eq!(rejoin_text(&bare("/abs/out-dir")), "/abs/out-dir");
}

#[test]
fn generate_reads_its_file_and_directory() {
    let command = one(headed(
        "Generate",
        Separator::Period,
        Protoform::Enclosed(
            Enclosure::Braced,
            vec![
                headed("/abs/file", Separator::Period, bare("ethos")),
                bare("/abs/out-dir"),
            ],
        ),
    ));
    assert_eq!(
        generate_command(&command),
        Ok(("/abs/file.ethos".to_owned(), "/abs/out-dir".to_owned()))
    );
}

#[test]
fn each_malformed_command_has_its_answer() {
    assert_eq!(
        generate_command(&Delineation { protoforms: vec![] }),
        Err("GenerationFault.{ \u{201C}expected one datom value\u{201D} }".to_owned())
    );
    assert_eq!(
        generate_command(&one(headed("Generate", Separator::Colon, bare("x")))),
        Err("GenerationFault.{ \u{201C}unknown command: Generate\u{201D} }".to_owned())
    );
    assert_eq!(
        generate_command(&one(headed("Generate", Separator::Period, bare("x")))),
        Err("GenerationFault.{ \u{201C}expected braced body\u{201D} }".to_owned())
    );
    assert_eq!(
        generate_command(&one(headed(
            "Generate",
            Separator::Period,
            Protoform::Enclosed(Enclosure::Braced, vec![bare("x")])
        ))),
        Err("GenerationFault.{ \u{201C}expected Generate.{ file-path out-dir }\u{201D} }".to_owned())
    );
}

#[test]
fn answers_name_their_paths() {
    assert_eq!(
        usage_fault(),
        "GenerationFault.{ \u{201C}ethos-zero accepts one datom value and no flags\u{201D} }"
    );
    assert_eq!(
        delineation_fault(3, 12),
        "GenerationFault.{ \u{201C}delineation fault at 3..12\u{201D} }"
    );
    assert_eq!(
        file_fault(&"/a.ethos".to_owned(), &"missing".to_owned()),
        "GenerationFault.{ \u{201C}/a.ethos\u{201D} \u{201C}missing\u{201D} }"
    );
    assert_eq!(
        generated_message(&"/out/a.rs".to_owned()),
        "Generated.[ /out/a.rs ]"
    );
}

#[test]
fn the_output_takes_the_stem_of_the_source() {
    assert_eq!(
        output_path(&"/abs/file.ethos".to_owned(), &"/abs/out".to_owned()),
        "/abs/out/file.rs"
    );
    assert_eq!(
        output_path(&"archive.tar.ethos".to_owned(), &"out/".to_owned()),
        "out/archive.tar.rs"
    );
    assert_eq!(
        output_path(&".hidden".to_owned(), &"out".to_owned()),
        "out/.hidden.rs"
    );
}
