use cpp_header_parser::parser::cpp::class::CppClass;
use cpp_header_parser::parser::cpp::comment::CppComment;
use cpp_header_parser::parser::cpp::namespace::CppNamespace;
use cpp_header_parser::parser::generic::namespace::parse_namespace;
use cpp_header_parser::text::{Expected, ParseError};

#[test]
fn empty_namespace() {
    let input = "namespace test {}";
    let expected = Ok((
        "",
        CppNamespace {
            name: "test",
            ..Default::default()
        },
    ));

    let result = parse_namespace::<CppNamespace, CppClass>(input);
    assert_eq!(result, expected);
}

#[test]
fn empty_nested_namespace() {
    let input = "namespace OuterNamespace { namespace InnerNamespace {} }";
    let expected = Ok((
        "",
        CppNamespace {
            name: "OuterNamespace",
            namespaces: vec![CppNamespace {
                name: "InnerNamespace",
                ..Default::default()
            }],
            ..Default::default()
        },
    ));

    let result = parse_namespace::<CppNamespace, CppClass>(input);
    assert_eq!(result, expected);
}

#[test]
fn empty_namespace_with_comment() {
    let input = r#"namespace test {
            // some comment
        }"#;

    let expected = Ok((
        "",
        CppNamespace {
            name: "test",
            comments: vec![CppComment {
                comment: "some comment".into(),
            }],
            ..Default::default()
        },
    ));

    let result = parse_namespace::<CppNamespace, CppClass>(input);
    assert_eq!(result, expected);
}

#[test]
fn empty_namespace_with_empty_class() {
    let input = r#"namespace test {
            class TestClass {};
        }"#;

    let expected = Ok((
        "",
        CppNamespace {
            name: "test",
            classes: vec![CppClass {
                name: "TestClass",
                ..Default::default()
            }],
            ..Default::default()
        },
    ));

    let result = parse_namespace::<CppNamespace, CppClass>(input);
    assert_eq!(result, expected);
}

#[test]
fn empty_namespace_with_forward_declaration() {
    let input = r#"namespace test {
            class TestClass;
        }"#;

    let expected = Ok((
        "",
        CppNamespace {
            name: "test",
            classes: vec![CppClass {
                name: "TestClass",
                ..Default::default()
            }],
            ..Default::default()
        },
    ));

    let result = parse_namespace::<CppNamespace, CppClass>(input);
    assert_eq!(result, expected);
}

#[test]
fn namespace_with_every_kind_of_item() {
    let input = "namespace n { ; int x = 1; void f(); class C {}; namespace m { int y; } // c\n } tail";
    let (rest, ns) = parse_namespace::<CppNamespace, CppClass>(input).unwrap();
    assert_eq!(rest, " tail");
    assert_eq!(ns.name, "n");
    assert_eq!(ns.variables.len(), 1);
    assert_eq!(ns.variables[0].name, "x");
    assert_eq!(ns.functions.len(), 1);
    assert_eq!(ns.functions[0].name, "f");
    assert_eq!(ns.classes.len(), 1);
    assert_eq!(ns.classes[0].name, "C");
    assert_eq!(ns.namespaces.len(), 1);
    assert_eq!(ns.namespaces[0].name, "m");
    assert_eq!(ns.namespaces[0].variables[0].name, "y");
    assert_eq!(ns.comments, vec![CppComment { comment: "c".to_string() }]);
}

#[test]
fn namespace_failures() {
    assert_eq!(
        parse_namespace::<CppNamespace, CppClass>("class X {}"),
        Err(ParseError {
            rest: "class X {}",
            expected: Expected::Word,
            scope: vec![],
        })
    );
    assert_eq!(
        parse_namespace::<CppNamespace, CppClass>("namespace n ;"),
        Err(ParseError {
            rest: ";",
            expected: Expected::Char('{'),
            scope: vec![],
        })
    );
    assert_eq!(
        parse_namespace::<CppNamespace, CppClass>("namespace n { ??? }"),
        Err(ParseError {
            rest: "??? }",
            expected: Expected::Char('}'),
            scope: vec!["n"],
        })
    );
}

#[test]
fn a_failure_in_a_namespace_names_the_bodies_around_it() {
    let input = "namespace a { namespace b { class C { int x; ??? }; } }";
    assert_eq!(
        parse_namespace::<CppNamespace, CppClass>(input),
        Err(ParseError {
            rest: "??? }; } }",
            expected: Expected::Char('}'),
            scope: vec!["a", "b", "C"],
        })
    );
    assert_eq!(
        parse_namespace::<CppNamespace, CppClass>("namespace a { int x;"),
        Err(ParseError {
            rest: "",
            expected: Expected::Progress,
            scope: vec!["a"],
        })
    );
}
