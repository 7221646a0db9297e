use cpp_header_parser::parser::cpp::comment::CppComment;
use cpp_header_parser::parser::generic::comment::{parse_comment, strip_indent};
use cpp_header_parser::text::{same_text, CharClass, Expected, ParseError, Source};

#[test]
fn test_parse_one_line_comment() {
    let input = "// This is a one line comment";

    let (input, comment) = parse_comment::<CppComment>(input).unwrap();
    assert!(input.is_empty());
    assert_eq!(
        comment,
        CppComment {
            comment: "This is a one line comment".to_string()
        }
    );
}

#[test]
fn test_parse_one_line_comment_with_multiline_syntax() {
    let input = "/* This is a one line comment */";

    let (input, comment) = parse_comment::<CppComment>(input).unwrap();
    assert!(input.is_empty());
    assert_eq!(
        comment,
        CppComment {
            comment: "This is a one line comment ".to_string()
        }
    );
}

#[test]
fn test_parse_multiline_comment_with_multiline_syntax() {
    let input = r#"/**
                             * This is a one line comment
                             */"#;

    let (input, comment) = parse_comment::<CppComment>(input).unwrap();
    assert!(input.is_empty());
    assert_eq!(
        comment,
        CppComment {
            comment: "This is a one line comment".to_string()
        }
    );
}

#[test]
fn test_parse_multiple_lines_comment() {
    let input = "// This is a one line comment\n// And another line";

    let (input, comment) = parse_comment::<CppComment>(input).unwrap();
    assert!(input.is_empty());
    assert_eq!(
        comment,
        CppComment {
            comment: "This is a one line comment\nAnd another line".to_string()
        }
    );
}

#[test]
fn strip_indent_drops_space_stars_and_slashes() {
    assert_eq!(strip_indent("   * text * more"), "text * more");
    assert_eq!(strip_indent("\t/// x "), "x ");
    assert_eq!(strip_indent(" */ "), "");
    assert_eq!(strip_indent(""), "");
    assert_eq!(strip_indent("plain"), "plain");
    assert_eq!(strip_indent("\u{a0}\u{2003}é"), "é");
}

#[test]
fn no_comment_mark_is_a_failure() {
    assert_eq!(
        parse_comment::<CppComment>("int x; // late"),
        Err(ParseError {
            rest: "int x; // late",
            expected: Expected::Word,
            scope: vec![],
        })
    );
    assert_eq!(
        parse_comment::<CppComment>(""),
        Err(ParseError {
            rest: "",
            expected: Expected::Word,
            scope: vec![],
        })
    );
}

#[test]
fn unclosed_block_comment_fails_behind_its_mark() {
    assert_eq!(
        parse_comment::<CppComment>("/* never closed"),
        Err(ParseError {
            rest: " never closed",
            expected: Expected::Closing,
            scope: vec![],
        })
    );
}

#[test]
fn comment_lines_stop_at_the_first_line_without_mark() {
    let (rest, comment) = parse_comment::<CppComment>("/// a\n//b\r\n  // c\nint x;").unwrap();
    assert_eq!(comment.comment, "a\nb");
    assert_eq!(rest, "  // c\nint x;");
}

#[test]
fn lone_carriage_return_is_no_line_end() {
    assert_eq!(
        parse_comment::<CppComment>("// a\rb"),
        Err(ParseError {
            rest: "// a\rb",
            expected: Expected::Word,
            scope: vec![],
        })
    );
}

#[test]
fn block_comment_lines_drop_blank_lines_and_carriage_returns() {
    let (rest, comment) = parse_comment::<CppComment>("/*\r\n * one\r\n *\r\n\r\n * two  \n */ tail").unwrap();
    assert_eq!(comment.comment, "one\ntwo  ");
    assert_eq!(rest, " tail");
    let (rest, comment) = parse_comment::<CppComment>("/**/x").unwrap();
    assert_eq!(comment.comment, "");
    assert_eq!(rest, "x");
}

#[test]
fn classes_of_characters() {
    assert!(CharClass::Ident.decide('x', true, false));
    assert!(CharClass::Ident.decide('_', false, false));
    assert!(!CharClass::Ident.decide('-', false, false));
    assert!(CharClass::Name.decide('-', false, false));
    assert!(CharClass::MethodIdent.decide('~', false, false));
    assert!(!CharClass::MethodIdent.decide('-', false, true));
    assert!(CharClass::Initializer.decide(',', true, false));
    assert!(!CharClass::Initializer.decide(',', false, false));
    assert!(!CharClass::Initializer.decide('{', false, false));
    assert!(!CharClass::Initializer.decide('\n', false, true));
    assert!(CharClass::Initializer.decide(' ', false, true));
    assert!(CharClass::Indent.decide('x', false, true));
    assert!(CharClass::Indent.decide('*', false, false));
    assert!(CharClass::Indent.decide('/', false, false));
    assert!(!CharClass::Indent.decide('x', true, false));
    assert!(CharClass::Blank.decide('\r', false, false));
    assert!(!CharClass::Blank.decide('\u{a0}', false, true));
    assert!(CharClass::InLine.decide('\r', false, false));
    assert!(!CharClass::InLine.decide('\n', false, false));
    assert!(!CharClass::NoBreak.decide('\r', false, false));
    assert!(!CharClass::NoBrace.decide('}', false, false));
    assert!(CharClass::AsciiHead.decide('Z', false, false));
    assert!(!CharClass::AsciiHead.decide('0', true, false));
    assert!(CharClass::AsciiIdent.decide('0', false, false));
    assert!(!CharClass::AsciiIdent.decide('é', true, false));
    assert!(CharClass::Digit.decide('9', false, false));
    assert!(!CharClass::Digit.decide('٣', true, false));
    assert!(CharClass::Ident.test('é'));
    assert!(CharClass::Indent.test('\u{2003}'));
    assert!(!CharClass::Digit.test('٣'));
}

#[test]
fn positions_in_a_text_count_characters() {
    let src = Source::new("aé€😀 z");
    assert_eq!(src.len(), 6);
    assert_eq!(src.at(1), 'é');
    assert_eq!(src.at(3), '😀');
    assert_eq!(src.slice(1, 4), "é€😀");
    assert_eq!(src.rest(4), " z");
    assert_eq!(src.rest(6), "");
    assert_eq!(src.run(0, CharClass::Ident), 2);
    assert_eq!(src.blanks(4), 5);
    assert!(src.is_char(2, '€'));
    assert!(!src.is_char(6, 'z'));
    assert!(src.is_word(2, "€😀"));
    assert!(!src.is_word(5, "zz"));
    assert_eq!(src.word(0, "aé"), Some(2));
    assert_eq!(src.word(0, "é"), None);
    assert_eq!(src.after_char(5, 'z'), Some(6));
    assert_eq!(src.find(0, "😀"), Some((3, 4)));
    assert_eq!(src.find(4, "😀"), None);
    assert_eq!(src.find(6, ""), Some((6, 6)));
    assert!(src.is_text(1, 3, "é€"));
    assert!(!src.is_text(1, 3, "é"));
    assert!(same_text("é€", "é€"));
    assert!(!same_text("é€", "é"));
    assert!(same_text("", ""));
}

#[test]
fn the_text_of_a_comment_is_handed_to_the_type_asked_for() {
    assert_eq!(
        parse_comment::<String>("// plain text\nint x;"),
        Ok(("int x;", "plain text".to_string()))
    );
    assert_eq!(
        parse_comment::<Box<str>>("/* a\n * b */"),
        Ok(("", "a\nb ".into()))
    );
    assert!(parse_comment::<String>("x").is_err());
}
