use ethos_zero::canonical::{is_delimiter_char, is_white_space, Canonicalizing};

#[test]
fn sweet_form_opens_into_the_braced_form() {
    let canonical = "Types\n[]\n[ Record.{ Text } ]\n[]".canonicalize();
    assert_eq!(canonical.text, "Types.{\n[]\n[ Record.{ Text } ]\n[]\n}");
    assert_eq!(canonical.seam, (5, 7));
}

#[test]
fn braced_form_is_left_as_it_is() {
    let source = "Types.{ [] [ Record.{ Text } ] [] }";
    let canonical = source.canonicalize();
    assert_eq!(canonical.text, source);
    assert_eq!(canonical.seam, (0, 0));
}

#[test]
fn canonical_and_structured_texts_are_left_as_they_are() {
    for source in [
        "Types.{ [] [ Record.{ Text } ] [] }",
        "Types . { [] }",
        "{ x }",
        "",
        "   ",
        "; only a comment",
    ] {
        let canonical = source.canonicalize();
        assert_eq!(canonical.text, source);
        assert_eq!(canonical.seam, (0, 0));
    }
}

#[test]
fn a_leading_comment_is_kept_before_the_head() {
    let canonical = "; the types\n  Types [] [] []".canonicalize();
    assert_eq!(canonical.text, "; the types\n  Types.{ [] [] []\n}");
    assert_eq!(canonical.seam, (19, 21));
}

#[test]
fn a_comment_on_the_head_line_stays_a_comment() {
    let canonical = "Types ; the head\n[]\n[ Record.{ Text } ]\n[]".canonicalize();
    assert_eq!(
        canonical.text,
        "Types.{ ; the head\n[]\n[ Record.{ Text } ]\n[]\n}"
    );
}

#[test]
fn a_trailing_comment_does_not_swallow_the_closing_brace() {
    let canonical = "Types\n[]\n[]\n[] ; trailing".canonicalize();
    assert_eq!(canonical.text, "Types.{\n[]\n[]\n[] ; trailing\n}");
    assert!(canonical.text.ends_with("\n}"));
}

#[test]
fn the_seam_counts_bytes() {
    let canonical = "; \u{e9}\nTypes [] [] []".canonicalize();
    assert_eq!(canonical.text, "; \u{e9}\nTypes.{ [] [] []\n}");
    assert_eq!(canonical.seam, (10, 12));
    assert_eq!(&canonical.text[10..12], ".{");
}

#[test]
fn positions_map_back_across_the_seam() {
    let source = "Types\n[]\n[ Record.{ Text } ]\n[]";
    let canonical = source.canonicalize();
    assert_eq!(canonical.shift(3), 3);
    assert_eq!(canonical.shift(5), 5);
    assert_eq!(canonical.shift(6), 5);
    assert_eq!(canonical.shift(7), 5);
    assert_eq!(canonical.shift(12), 10);
    assert_eq!(canonical.shift(31), 29);
    assert_eq!(canonical.shift(33), 31);
    assert_eq!(canonical.shift(35), 31);
    let start = canonical.text.find("Record").unwrap();
    let (from, to) = canonical.resituate((start, start + 6));
    assert_eq!(&source[from..to], "Record");
}

#[test]
fn positions_are_unchanged_without_a_seam() {
    let canonical = "Types.{ [] [] [] }".canonicalize();
    assert_eq!(canonical.shift(0), 0);
    assert_eq!(canonical.shift(7), 7);
    assert_eq!(canonical.shift(18), 18);
    assert_eq!(canonical.shift(40), 18);
}

#[test]
fn canonicalizing_twice_changes_nothing() {
    for source in [
        "Types\n[]\n[ Record.{ Text } ]\n[]",
        "; c\nKinds [] []",
        "Sema [] []",
        "Types.{ [] [] [] }",
        "Types\n[] ; trailing",
    ] {
        let once = source.canonicalize().text;
        let twice = once.as_str().canonicalize();
        assert_eq!(twice.text, once);
        assert_eq!(twice.seam, (0, 0));
    }
}

#[test]
fn delimiters_and_white_space_are_recognized() {
    for c in ['{', '}', '[', ']', '<', '>', '(', ')', '\u{201C}', '\u{201D}'] {
        assert!(is_delimiter_char(c));
    }
    assert!(!is_delimiter_char('.'));
    assert!(is_white_space(' ') && is_white_space('\n') && is_white_space('\u{2003}'));
    assert!(!is_white_space('x'));
}
