use cpp_header_parser::parser::cpp::ctype::CType::Path;
use cpp_header_parser::parser::cpp::member::{CppMember, CppMemberModifier};
use cpp_header_parser::parser::generic::member::parse_member;
use cpp_header_parser::parser::{is_ident_char, parse_str, parse_ws_str};
use cpp_header_parser::text::{Expected, ParseError};

#[test]
fn test_cpp_member_without_default_value() {
    let input = "int member";
    assert_eq!(
        parse_member(input),
        Ok((
            "",
            CppMember {
                name: "member",
                ctype: Path(vec!["int"]),
                ..Default::default()
            }
        ))
    );
}

#[test]
fn test_cpp_member_with_modifier() {
    for modifier in vec!["static", "const", "inline"] {
        let input = format!("{} int member", modifier);
        assert_eq!(
            parse_member(&input),
            Ok((
                "",
                CppMember {
                    name: "member",
                    ctype: Path(vec!["int"]),
                    modifiers: vec![CppMemberModifier::from_word(modifier).unwrap()],
                    ..Default::default()
                }
            ))
        );
    }
}

#[test]
fn test_cpp_member_with_default_value() {
    for input in ["int member = 0", "int member {0}"] {
        assert_eq!(
            parse_member(input),
            Ok((
                "",
                CppMember {
                    name: "member",
                    ctype: Path(vec!["int"]),
                    default_value: Some(Path(vec!["0"])),
                    ..Default::default()
                }
            ))
        );
    }
}

#[test]
fn words_of_member_modifiers() {
    assert_eq!(CppMemberModifier::Static.as_str(), "static");
    assert_eq!(CppMemberModifier::Const.as_str(), "const");
    assert_eq!(CppMemberModifier::Inline.as_str(), "inline");
    assert_eq!(CppMemberModifier::from_word("static"), Some(CppMemberModifier::Static));
    assert_eq!(CppMemberModifier::from_word("virtual"), None);
    assert_eq!(CppMemberModifier::from_word(""), None);
}

#[test]
fn a_member_needs_a_name() {
    assert_eq!(
        parse_member::<CppMember>("int @x"),
        Err(ParseError {
            rest: "@x",
            expected: Expected::Name,
            scope: vec![],
        })
    );
    assert_eq!(
        parse_member::<CppMember>("int a\\q"),
        Err(ParseError {
            rest: "q",
            expected: Expected::Escape,
            scope: vec![],
        })
    );
}

#[test]
fn at_the_end_of_the_text_the_name_is_empty() {
    let (rest, m) = parse_member::<CppMember>("int (x)").unwrap();
    assert_eq!(rest, "");
    assert_eq!(m.name, "");
}

#[test]
fn member_with_comment_and_several_modifiers() {
    let (rest, m) = parse_member::<CppMember>("/// counts\nstatic const int n{ 4 };").unwrap();
    assert_eq!(rest, ";");
    assert_eq!(m.name, "n");
    assert_eq!(m.comment.unwrap().comment, "counts");
    assert_eq!(
        m.modifiers,
        vec![CppMemberModifier::Static, CppMemberModifier::Const]
    );
    assert_eq!(m.default_value, Some(Path(vec!["4"])));
}

#[test]
fn names() {
    assert_eq!(parse_str("my-name_1 rest"), Ok((" rest", "my-name_1")));
    assert_eq!(parse_str("a\\nb\\\"c;"), Ok((";", "a\\nb\\\"c")));
    assert_eq!(parse_str(""), Ok(("", "")));
    assert_eq!(
        parse_str("(x"),
        Err(ParseError {
            rest: "(x",
            expected: Expected::Name,
            scope: vec![],
        })
    );
    assert_eq!(
        parse_str("ab\\"),
        Err(ParseError {
            rest: "ab\\",
            expected: Expected::Name,
            scope: vec![],
        })
    );
    assert_eq!(parse_ws_str("  name \n\t{"), Ok(("{", "name")));
    assert!(is_ident_char('-'));
    assert!(is_ident_char('_'));
    assert!(is_ident_char('x'));
    assert!(!is_ident_char('~'));
}
