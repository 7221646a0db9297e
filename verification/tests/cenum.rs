use cpp_header_parser::parser::cpp::cenum::{
    cpp_enum, enum_variant, enum_variants, identifier, int_literal, CppEnum, EnumVariant,
};
use cpp_header_parser::parser::cpp::ctype::CType::Path;
use cpp_header_parser::text::{Expected, ParseError};

#[test]
fn test_identifier() {
    assert_eq!(identifier("foo123 "), Ok((" ", "foo123")));
    assert_eq!(identifier("_bar"), Ok(("", "_bar")));
    assert!(identifier("123abc").is_err());
}

#[test]
fn test_int_literal() {
    assert_eq!(int_literal("123 "), Ok((" ", 123)));
    assert_eq!(int_literal("-45"), Ok(("", -45)));
    assert!(int_literal("abc").is_err());
}

#[test]
fn test_enum_variant() {
    assert_eq!(
        enum_variant("Red"),
        Ok((
            "",
            EnumVariant {
                name: "Red".to_string(),
                value: None
            }
        ))
    );
    assert_eq!(
        enum_variant("Green = 5"),
        Ok((
            "",
            EnumVariant {
                name: "Green".to_string(),
                value: Some(5)
            }
        ))
    );
}

#[test]
fn test_enum_variants() {
    assert_eq!(
        enum_variants("Red, Green=5 , Blue,"),
        Ok((
            "",
            vec![
                EnumVariant {
                    name: "Red".into(),
                    value: None
                },
                EnumVariant {
                    name: "Green".into(),
                    value: Some(5)
                },
                EnumVariant {
                    name: "Blue".into(),
                    value: None
                },
            ]
        ))
    );
}

#[test]
fn test_cpp_enum() {
    let src = r#"enum class Color : i8 {
                Red,
                Green = 5,
                Blue,
            };
        "#;

    let expected = CppEnum {
        name: Some("Color".to_string()),
        ctype: Some(Path(vec!["i8"])),
        variants: vec![
            EnumVariant {
                name: "Red".to_string(),
                value: None,
            },
            EnumVariant {
                name: "Green".to_string(),
                value: Some(5),
            },
            EnumVariant {
                name: "Blue".to_string(),
                value: None,
            },
        ],
    };

    assert_eq!(cpp_enum(src), Ok(("", expected)));
}

#[test]
fn test_cpp_enum_no_name() {
    let src = r#"enum
        {
            Foo = 10,
            Bar,
        };
        "#;

    let expected = CppEnum {
        name: None,
        ctype: None,
        variants: vec![
            EnumVariant {
                name: "Foo".to_string(),
                value: Some(10),
            },
            EnumVariant {
                name: "Bar".to_string(),
                value: None,
            },
        ],
    };

    assert_eq!(cpp_enum(src), Ok(("", expected)));
}

#[test]
fn whole_numbers_at_the_limits() {
    assert_eq!(
        int_literal("9223372036854775807"),
        Ok(("", 9223372036854775807))
    );
    assert_eq!(
        int_literal("-9223372036854775808;"),
        Ok((";", -9223372036854775808))
    );
    assert_eq!(
        int_literal("9223372036854775808"),
        Err(ParseError {
            rest: "9223372036854775808",
            expected: Expected::Number,
            scope: vec![],
        })
    );
    assert_eq!(
        int_literal("-9223372036854775809"),
        Err(ParseError {
            rest: "-9223372036854775809",
            expected: Expected::Number,
            scope: vec![],
        })
    );
    assert_eq!(
        int_literal("99999999999999999999999999999999999999999999"),
        Err(ParseError {
            rest: "99999999999999999999999999999999999999999999",
            expected: Expected::Number,
            scope: vec![],
        })
    );
    assert_eq!(int_literal("007"), Ok(("", 7)));
    assert_eq!(int_literal("-0"), Ok(("", 0)));
    assert_eq!(
        int_literal("-x"),
        Err(ParseError {
            rest: "x",
            expected: Expected::Digit,
            scope: vec![],
        })
    );
    assert_eq!(
        int_literal("+1"),
        Err(ParseError {
            rest: "+1",
            expected: Expected::Digit,
            scope: vec![],
        })
    );
}

#[test]
fn identifiers_are_ascii() {
    assert_eq!(identifier("aé"), Ok(("é", "a")));
    assert_eq!(
        identifier("é"),
        Err(ParseError {
            rest: "é",
            expected: Expected::Identifier,
            scope: vec![],
        })
    );
    assert_eq!(identifier("a-b"), Ok(("-b", "a")));
}

#[test]
fn a_value_that_is_no_number_is_left() {
    assert_eq!(
        enum_variant("Red = x"),
        Ok((
            " = x",
            EnumVariant {
                name: "Red".to_string(),
                value: None
            }
        ))
    );
    assert_eq!(enum_variants(""), Ok(("", vec![])));
    assert_eq!(enum_variants(",x"), Ok(("x", vec![])));
}

#[test]
fn enum_failures() {
    assert_eq!(
        cpp_enum("enumx"),
        Err(ParseError {
            rest: "x",
            expected: Expected::Space,
            scope: vec![],
        })
    );
    assert_eq!(
        cpp_enum("struct X {};"),
        Err(ParseError {
            rest: "struct X {};",
            expected: Expected::Word,
            scope: vec![],
        })
    );
    assert_eq!(
        cpp_enum("enum E ;"),
        Err(ParseError {
            rest: ";",
            expected: Expected::Char('{'),
            scope: vec![],
        })
    );
    assert_eq!(
        cpp_enum("enum E { A B };"),
        Err(ParseError {
            rest: "B };",
            expected: Expected::Char('}'),
            scope: vec![],
        })
    );
    assert_eq!(
        cpp_enum("enum E { A }"),
        Err(ParseError {
            rest: "",
            expected: Expected::Char(';'),
            scope: vec![],
        })
    );
    let (rest, e) = cpp_enum("enum struct E{};x").unwrap();
    assert_eq!(rest, "x");
    assert_eq!(e.name, Some("E".to_string()));
    assert!(e.variants.is_empty());
}
