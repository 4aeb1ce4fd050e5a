use ethos_zero::canonical::Canonicalizing;
use ethos_zero::concept::{File, Import, Problem, TypeDeclaration, TypeExpression, Variant};
use ethos_zero::fault::Form;
use ethos_zero::generation::Generating;
use ethos_zero::protoform::{Delineation, Enclosure, Head, Protoform, Separator};

/// The protoforms of a text written in the ethos notation, comments
/// skipped: the structure these tests hand the reader.
fn delineate(text: &str) -> Delineation {
    let chars: Vec<char> = text.chars().collect();
    let mut at = 0;
    let mut protoforms = Vec::new();
    skip_blank(&chars, &mut at);
    while at < chars.len() {
        protoforms.push(protoform(&chars, &mut at));
        skip_blank(&chars, &mut at);
    }
    Delineation { protoforms }
}

fn skip_blank(chars: &[char], at: &mut usize) {
    while *at < chars.len() {
        if chars[*at].is_whitespace() {
            *at += 1;
        } else if chars[*at] == ';' {
            while *at < chars.len() && chars[*at] != '\n' {
                *at += 1;
            }
        } else {
            break;
        }
    }
}

fn closing(open: char) -> Option<(char, Enclosure)> {
    match open {
        '{' => Some(('}', Enclosure::Braced)),
        '[' => Some((']', Enclosure::Bracketed)),
        '(' => Some((')', Enclosure::Parenthesized)),
        _ => None,
    }
}

fn items(chars: &[char], at: &mut usize, close: char) -> Vec<Protoform> {
    let mut items = Vec::new();
    loop {
        skip_blank(chars, at);
        if chars[*at] == close {
            *at += 1;
            return items;
        }
        items.push(protoform(chars, at));
    }
}

fn protoform(chars: &[char], at: &mut usize) -> Protoform {
    if let Some((close, enclosure)) = closing(chars[*at]) {
        *at += 1;
        return Protoform::Enclosed(enclosure, items(chars, at, close));
    }
    let start = *at;
    while *at < chars.len() && (chars[*at].is_alphanumeric() || chars[*at] == '_' || chars[*at] == '-') {
        *at += 1;
    }
    let symbol: String = chars[start..*at].iter().collect();
    let head = if *at < chars.len() && chars[*at] == '<' {
        *at += 1;
        Head::Qualified(symbol, items(chars, at, '>'))
    } else {
        Head::Bare(symbol)
    };
    let separator = match chars.get(*at) {
        Some('.') => Some(Separator::Period),
        Some('!') => Some(Separator::Exclamation),
        Some(':') => Some(Separator::Colon),
        _ => None,
    };
    match separator {
        Some(separator) => {
            *at += 1;
            Protoform::Headed(head, separator, Box::new(protoform(chars, at)))
        }
        None => Protoform::Bare(head),
    }
}

fn conceived(source: &str) -> Result<File, (Vec<i64>, Problem)> {
    delineate(&source.canonicalize().text)
        .conceive()
        .map_err(|fault| (fault.path, fault.problem))
}

fn file(source: &str) -> File {
    match conceived(source) {
        Ok(file) => file,
        Err(fault) => panic!("{source}\ndoes not read: {fault:?}"),
    }
}

fn problem(source: &str) -> (Vec<i64>, Problem) {
    match conceived(source) {
        Ok(file) => panic!("{source}\nwas expected to fault, read as {file:?}"),
        Err(fault) => fault,
    }
}

fn text(s: &str) -> String {
    s.to_owned()
}

#[test]
fn rejects_an_undeclared_name_in_a_type_position() {
    assert_eq!(
        problem("Types\n[]\n[ Record.{ Text Bogus } ]\n[]"),
        (vec![0, 0, 1, 0, 0, 1], Problem::Undeclared(text("Bogus")))
    );
}

#[test]
fn an_undeclared_superkind_or_bound_is_refused_where_it_stands() {
    assert_eq!(
        problem("Kinds\n[]\n[ Streamable.{ [ Fillable ] [] [] [ next![ Text ] ] } ]"),
        (vec![0, 0, 1, 0, 0, 0, 0], Problem::Undeclared(text("Fillable")))
    );
    assert_eq!(
        problem("Kinds\n[]\n[ Streamable.{ [] [ Item<Serializable> ] [] [ next![ Text ] ] } ]"),
        (vec![0, 0, 1, 0, 0, 1, 0, 0], Problem::Undeclared(text("Serializable")))
    );
}

#[test]
fn rejects_an_association_to_an_undeclared_kind_or_type() {
    assert_eq!(
        problem("Types\n[]\n[ Sink.{ Text } ]\n[ Sink.[ Summarizable ] ]"),
        (vec![0, 0, 2, 0, 0, 0], Problem::Undeclared(text("Summarizable")))
    );
    assert_eq!(
        problem("Types\n[ super:Summarizable ]\n[]\n[ Sink.[ Summarizable ] ]"),
        (vec![0, 0, 2, 0], Problem::Undeclared(text("Sink")))
    );
}

#[test]
fn a_type_where_a_kind_is_asked_is_in_the_wrong_role() {
    assert_eq!(
        problem("Kinds\n[]\n[ Own.[ own.[ Sized ] ] ]"),
        (vec![0, 0, 1, 0, 0, 0, 0, 0], Problem::Role(text("Sized")))
    );
}

#[test]
fn rejects_a_duplicate_type_kind_variant_or_import() {
    assert_eq!(
        problem("Types\n[]\n[ Record.{ Text } Record.{ Integer } ]\n[]"),
        (vec![0, 0, 1, 1], Problem::Duplicate(text("Record")))
    );
    assert_eq!(
        problem("Kinds\n[]\n[ Own.[ own.[ Text ] ] Own.[ own.[ Text ] ] ]"),
        (vec![0, 0, 1, 1], Problem::Duplicate(text("Own")))
    );
    assert_eq!(
        problem("Types\n[]\n[ Twice.[ A B A ] ]\n[]"),
        (vec![0, 0, 1, 0, 0, 2], Problem::Duplicate(text("A")))
    );
    assert_eq!(
        problem("Types\n[ protos:Text ]\n[ Text.{ Integer } ]\n[]"),
        (vec![0, 0, 1, 0], Problem::Duplicate(text("Text")))
    );
    assert_eq!(
        problem("Signal\n[]\n[ Go ]\n[ Done ]\n[ Request.{ Text } ]"),
        (vec![0, 0, 3, 0], Problem::Duplicate(text("Request")))
    );
}

#[test]
fn rejects_a_capability_without_a_yield() {
    assert_eq!(
        problem("Kinds\n[]\n[ Own.[ run.[] ] ]"),
        (vec![0, 0, 1, 0, 0, 0, 0], Problem::Yield)
    );
    assert_eq!(
        problem("Kinds\n[]\n[ Own.[ run.{ [ Text ] [] } ] ]"),
        (vec![0, 0, 1, 0, 0, 0, 0, 1], Problem::Yield)
    );
    assert_eq!(
        problem("Kinds\n[]\n[ Own.[ run.[ Text Text ] ] ]"),
        (vec![0, 0, 1, 0, 0, 0, 0], Problem::Arity(1, 2))
    );
}

#[test]
fn rejects_a_kind_declared_with_the_wrong_separator() {
    assert_eq!(
        problem("Kinds\n[]\n[ Summarizable:[ summarize.[ Text ] ] ]"),
        (vec![0, 0, 1, 0], Problem::Separator(Separator::Colon))
    );
    assert_eq!(
        problem("Types\n[]\n[ Record!{ Text } ]\n[]"),
        (vec![0, 0, 1, 0], Problem::Separator(Separator::Exclamation))
    );
}

#[test]
fn rejects_a_bare_name_in_the_types_section_and_a_self_alias() {
    assert_eq!(
        problem("Types\n[]\n[ Text Integer Bogus ]\n[]"),
        (vec![0, 0, 1, 0], Problem::Expected(Form::Declaration))
    );
    assert_eq!(
        problem("Types\n[]\n[ Bogus.Bogus ]\n[]"),
        (vec![0, 0, 1, 0, 0], Problem::Cycle(text("Bogus")))
    );
    assert_eq!(
        problem("Types\n[]\n[ A.B B.Option<A> ]\n[]"),
        (vec![0, 0, 1, 0, 0], Problem::Cycle(text("A")))
    );
}

#[test]
fn rejects_a_signal_with_an_empty_requests_or_responses_section() {
    assert_eq!(problem("Signal\n[]\n[]\n[ Done ]\n[]"), (vec![0, 0, 1], Problem::Empty));
    assert_eq!(problem("Signal\n[]\n[ Go ]\n[]\n[]"), (vec![0, 0, 2], Problem::Empty));
}

#[test]
fn rejects_a_head_not_among_the_four() {
    assert_eq!(problem("Library\n[]\n[]\n[]"), (vec![0], Problem::Root));
    assert_eq!(problem("Library.{ 0 1 0 }\n[]\n[]\n[]\n[]"), (vec![], Problem::Root));
    assert_eq!(problem(""), (vec![], Problem::Root));
    assert_eq!(
        problem("Types.[ [] [] [] ]"),
        (vec![0, 0], Problem::Expected(Form::File))
    );
}

#[test]
fn rejects_a_wrong_section_count() {
    assert_eq!(problem("Types\n[]\n[]"), (vec![0, 0], Problem::Arity(3, 2)));
    assert_eq!(problem("Kinds\n[]\n[]\n[]"), (vec![0, 0], Problem::Arity(2, 3)));
}

#[test]
fn rejects_a_name_that_is_not_an_identifier_without_panicking() {
    assert_eq!(
        problem("Types\n[]\n[ weird-name.{ Text } ]\n[]"),
        (vec![0, 0, 1, 0], Problem::Name(text("weird-name")))
    );
    assert_eq!(
        problem("Kinds\n[]\n[ Own.[ match.[ Text ] ] ]"),
        (vec![0, 0, 1, 0, 0, 0], Problem::Name(text("match")))
    );
    assert_eq!(
        problem("Types\n[ 1bad:Text ]\n[]\n[]"),
        (vec![0, 0, 0, 0], Problem::Name(text("1bad")))
    );
}

#[test]
fn rejects_a_wrong_intrinsic_arity() {
    assert_eq!(
        problem("Types\n[]\n[ Pair.Result<Text> ]\n[]"),
        (vec![0, 0, 1, 0, 0], Problem::Arity(2, 1))
    );
    assert_eq!(
        problem("Types\n[]\n[ Own.{ Text<Integer> } ]\n[]"),
        (vec![0, 0, 1, 0, 0, 0], Problem::Arity(0, 1))
    );
}

#[test]
fn deep_nesting_faults_typed_and_never_aborts() {
    let depth = 2000;
    let mut inner = "Text".to_owned();
    for _ in 0..depth {
        inner = format!("Vector<{inner}>");
    }
    let (path, fault) = problem(&format!("Types\n[]\n[ Deep.{inner} ]\n[]"));
    assert_eq!(fault, Problem::Depth);
    assert!(path.len() > 100);
    let mut inner = "X".to_owned();
    for _ in 0..depth {
        inner = format!("Wrap.[ {inner} ]");
    }
    let (_, fault) = problem(&format!("Types\n[]\n[ Deep.[ {inner} ] ]\n[]"));
    assert_eq!(fault, Problem::Depth);
}

#[test]
fn the_reader_names_the_form_or_the_separator_it_found_wrong_where_it_stands() {
    assert_eq!(
        problem("Types\n[]\n[ Choice.[ A B:Text ] ]\n[]"),
        (vec![0, 0, 1, 0, 0, 1], Problem::Separator(Separator::Colon))
    );
    assert_eq!(
        problem("Kinds\n[]\n[ Own ]"),
        (vec![0, 0, 1, 0], Problem::Expected(Form::Kind))
    );
    assert_eq!(
        problem("Kinds\n[]\n[ Own.{ [] [] } ]"),
        (vec![0, 0, 1, 0, 0], Problem::Arity(4, 2))
    );
    assert_eq!(
        problem("Kinds\n[]\n[ Own.[ run.{ [ Text ] } ] ]"),
        (vec![0, 0, 1, 0, 0, 0, 0], Problem::Arity(2, 1))
    );
    assert_eq!(
        problem("Kinds\n[]\n[ Own.{ [ Text ] [] [ SIZE:Integer ] [] } ]"),
        (vec![0, 0, 1, 0, 0, 2, 0], Problem::Separator(Separator::Colon))
    );
    assert_eq!(
        problem("Types\n[ protos.Text ]\n[]\n[]"),
        (vec![0, 0, 0, 0], Problem::Separator(Separator::Period))
    );
    assert_eq!(
        problem("Types\n[]\n[ Record.{ Text } ]\n[ Record:[ Own ] ]"),
        (vec![0, 0, 2, 0], Problem::Separator(Separator::Colon))
    );
    assert_eq!(
        problem("Types\n[ Text ]\n[]\n[]"),
        (vec![0, 0, 0, 0], Problem::Expected(Form::Import))
    );
    assert_eq!(
        problem("Types\n[]\n[ Pair.{ Text {} } ]\n[]"),
        (vec![0, 0, 1, 0, 0, 1], Problem::Expected(Form::Reference))
    );
}

#[test]
fn an_alias_through_an_import_or_a_container_to_itself_is_a_cycle() {
    assert_eq!(
        problem("Types\n[ protos:Boxed ]\n[ A.Boxed<Vector<A>> ]\n[]"),
        (vec![0, 0, 1, 0, 0], Problem::Cycle(text("A")))
    );
    assert_eq!(
        problem("Types\n[]\n[ A.B B.C C.Result<Text A> ]\n[]"),
        (vec![0, 0, 1, 0, 0], Problem::Cycle(text("A")))
    );
    let File::Types(types) = file("Types\n[]\n[ A.Option<Node> Node.{ A } ]\n[]") else {
        panic!("expected Types");
    };
    assert_eq!(types.types.len(), 2);
}

#[test]
fn a_lowercase_type_name_reads_as_written() {
    let File::Types(types) = file("Types\n[]\n[ record.{ Text } ]\n[]") else {
        panic!("expected Types");
    };
    assert!(matches!(&types.types[0], TypeDeclaration::Struct(name, _) if name == "record"));
}

#[test]
fn signal_reads_requests_responses_and_types() {
    let File::Signal(signal) = file("Signal\n[]\n[ Lock.LockRequest Release.LockId ]\n[ Locked.Lock Released.Lock ]\n[ LockId.Integer LockRequest.{ Text Text } Lock.{ Integer Text Text } ]") else {
        panic!("expected Signal");
    };
    assert_eq!(signal.requests.len(), 2);
    assert_eq!(signal.responses.len(), 2);
    assert_eq!(signal.types.len(), 3);
}

#[test]
fn a_comment_on_the_head_line_reads() {
    assert!(matches!(file("Types ; the head\n[]\n[ Record.{ Text } ]\n[]"), File::Types(_)));
}

#[test]
fn a_trailing_comment_without_a_final_newline_reads() {
    assert!(matches!(file("Types\n[]\n[ Record.{ Text } ]\n[] ; trailing"), File::Types(_)));
}

#[test]
fn a_leading_comment_before_the_head_reads() {
    assert!(matches!(file("; about\n; more\nTypes\n[]\n[]\n[]"), File::Types(_)));
}

#[test]
fn types_reads_its_three_sections() {
    let File::Types(types) = file("Types\n[ protos:Text ]\n[ Record.{ Text Integer } SinkError.[ Closed Full ] LockId.Integer ]\n[]") else {
        panic!("expected Types");
    };
    assert_eq!(types.imports.len(), 1);
    assert!(matches!(&types.imports[0], Import::Single(source, name) if source == "protos" && name == "Text"));
    assert_eq!(types.types.len(), 3);
    assert!(matches!(&types.types[0], TypeDeclaration::Struct(name, positions) if name == "Record" && positions.len() == 2));
    assert!(matches!(&types.types[1], TypeDeclaration::Enum(_, variants) if variants.len() == 2
        && matches!(&variants[0], Variant::Unit(n) if n == "Closed")
        && matches!(&variants[1], Variant::Unit(n) if n == "Full")));
    assert!(matches!(&types.types[2], TypeDeclaration::Alias(_, TypeExpression::Named(aliased)) if aliased == "Integer"));
}

#[test]
fn an_import_can_rename_what_its_source_calls_another_name() {
    let read = file("Types\n[ protos:Word.Text ]\n[ Note.{ Word } ]\n[]");
    let File::Types(types) = &read else {
        panic!("expected Types");
    };
    assert!(matches!(&types.imports[0], Import::Renamed(source, name, emitted)
        if source == "protos" && name == "Word" && emitted == "Text"));
    let rust = read.generate().expect("generates");
    assert!(rust.contains("pub struct Note (pub protos :: Text ,) ;"), "{rust}");
    assert_eq!(
        problem("Types\n[ protos:Word.1bad ]\n[]\n[]"),
        (vec![0, 0, 0, 0, 0, 0], Problem::Name(text("1bad")))
    );
    assert_eq!(
        problem("Types\n[ protos:Word.Text ]\n[ Word.{ Text } ]\n[]"),
        (vec![0, 0, 1, 0], Problem::Duplicate(text("Word")))
    );
}
