use cpp_header_parser::parser::cpp::class::CppClass;
use cpp_header_parser::parser::cpp::comment::CppComment;
use cpp_header_parser::parser::cpp::ctype::CType::Path;
use cpp_header_parser::parser::cpp::member::CppMember;
use cpp_header_parser::parser::cpp::method::CppFunction;
use cpp_header_parser::parser::generic::class::{
    items_at, parse_class, same_level, CppParentClass, InheritanceVisibility,
};
use cpp_header_parser::parser::generic::method::{CppStorageQualifier, SpecialMember};
use cpp_header_parser::text::{Expected, ParseError};
use rand::Rng;

fn at<T>(level: InheritanceVisibility, items: Vec<T>) -> Vec<(InheritanceVisibility, T)> {
    items.into_iter().map(|item| (level, item)).collect()
}

fn random_whitespace_string() -> String {
    let mut rng = rand::rng();
    let len = rng.random_range(1..=40);
    " ".repeat(len)
}

fn random_newline_string() -> String {
    let mut rng = rand::rng();
    let len = rng.random_range(1..=40);
    "\n".repeat(len)
}

#[test]
fn class_test_parse_empty_cpp_with_inheritance_class() {
    for visibility in ["private", "protected", "public", ""] {
        let input = format!("class test : {visibility} a {{}};");
        let result = parse_class(&input, &vec![]);

        assert_eq!(
            result,
            Ok((
                "",
                CppClass {
                    name: "test",
                    api: None,
                    parents: vec![CppParentClass {
                        name: Path(vec!["a"]),
                        visibility: InheritanceVisibility::from(visibility)
                    }],
                    ..CppClass::default()
                }
            ))
        );
    }
}

#[test]
fn test_empty_struct() {
    let input = "struct Test {};";
    let result = parse_class(&input, &vec![]);
    assert_eq!(
        result,
        Ok((
            "",
            CppClass {
                name: "Test",
                ..CppClass::default()
            }
        ))
    );
}

#[test]
fn test_ignore_template_specialisation() {
    let input = r#"template<>
        struct Test<int>
        {
        };"#;
    let result = parse_class(&input, &vec![]);

    assert_eq!(
        result,
        Ok((
            "",
            CppClass {
                name: "Test",
                ..CppClass::default()
            }
        ))
    );
}

#[test]
fn test_parse_empty_struct() {
    let input = "struct Test {};";
    let result = parse_class(&input, &vec![]);

    assert_eq!(
        result,
        Ok((
            "",
            CppClass {
                name: "Test",
                ..CppClass::default()
            }
        ))
    );
}

#[test]
fn test_parse_nested_struct() {
    let input = r#"struct Test {
            struct Inner {}
        };"#;
    let result = parse_class(&input, &vec![]);

    assert_eq!(
        result,
        Ok((
            "",
            CppClass {
                name: "Test",
                inner_classes: at(
                    InheritanceVisibility::Private,
                    vec![CppClass {
                        name: "Inner",
                        ..CppClass::default()
                    }]
                ),
                ..CppClass::default()
            }
        ))
    );
}

#[test]
fn test_parse_struct_with_constructor() {
    let input = r#"struct Test
        {
            Test(){};
        };"#;
    let result = parse_class(&input, &vec![]);

    assert_eq!(
        result,
        Ok((
            "",
            CppClass {
                name: "Test",
                methods: at(
                    InheritanceVisibility::Private,
                    vec![CppFunction {
                        name: "Test",
                        ..Default::default()
                    }]
                ),
                ..CppClass::default()
            }
        ))
    );
}

#[test]
fn test_parse_empty_templated_struct() {
    let input = "template<typename T>\nstruct Test {};";
    let result = parse_class(&input, &vec![]);

    assert_eq!(
        result,
        Ok((
            "",
            CppClass {
                name: "Test",
                ..CppClass::default()
            }
        ))
    );
}

#[test]
fn test_parse_empty_cpp_with_multiple_inheritance_classes() {
    let input = "class test : public a, private b {};";
    let result = parse_class(&input, &vec![]);

    assert_eq!(
        result,
        Ok((
            "",
            CppClass {
                name: "test",
                api: None,
                parents: vec![
                    CppParentClass {
                        name: Path(vec!["a"]),
                        visibility: InheritanceVisibility::Public
                    },
                    CppParentClass {
                        name: Path(vec!["b"]),
                        visibility: InheritanceVisibility::Private
                    }
                ],
                ..CppClass::default()
            }
        ))
    );
}

#[test]
fn test_parse_empty_cpp_with_namespaced_inheritance_class() {
    let input = "class test : public namespace::a {};";
    let result = parse_class(&input, &vec![]);

    assert_eq!(
        result,
        Ok((
            "",
            CppClass {
                name: "test",
                api: None,
                parents: vec![CppParentClass {
                    name: Path(vec!["namespace", "a"]),
                    visibility: InheritanceVisibility::Public
                }],
                ..CppClass::default()
            }
        ))
    );
}

#[test]
fn test_parse_class_with_constructor() {
    let input1 = r#"class test {
            public:
                test()
                {
                    int j = 42;
                    for(int i = 0; i < j; i++)
                    {
                        std::cout << j << std::endl;
                    }
                }
        };"#;

    let input2 = r#"class test {
            public:
                test();
        };"#;

    for input in [input1, input2] {
        let result = parse_class(&input, &vec![]);

        assert_eq!(
            result,
            Ok((
                "",
                CppClass {
                    name: "test",
                    methods: at(
                        InheritanceVisibility::Public,
                        vec![CppFunction {
                            name: "test",
                            ..Default::default()
                        }]
                    ),
                    ..CppClass::default()
                }
            ))
        );
    }
}

#[test]
fn test_parse_empty_cpp_with_api() {
    let input = format!("class MY_API test {{}};");
    let result = parse_class(&input, &vec![]);

    assert_eq!(
        result,
        Ok((
            "",
            CppClass {
                name: "test",
                api: Some("MY_API"),
                ..CppClass::default()
            }
        ))
    );
}

#[test]
fn fussy_test_parse_empty_cpp_class() {
    for _ in 0..100 {
        let input = format!(
            "class {}test{}{{ {} }}",
            random_whitespace_string(),
            random_whitespace_string(),
            random_newline_string()
        );
        let result = parse_class(&input, &vec![]);

        assert_eq!(
            result,
            Ok((
                "",
                CppClass {
                    name: "test",
                    ..CppClass::default()
                }
            ))
        );
    }
}

#[test]
fn test_parse_class_with_method() {
    let input = r#"class test {
                void hello();
            };"#;
    let result = parse_class(&input, &vec![]);

    assert_eq!(
        result,
        Ok((
            "",
            CppClass {
                name: "test",
                methods: at(
                    InheritanceVisibility::Private,
                    vec![CppFunction {
                        name: "hello",
                        ..Default::default()
                    }]
                ),
                ..CppClass::default()
            }
        ))
    );
}

#[test]
fn test_parse_class_with_multiple_methods() {
    let input = "class test {void hello();\nvoid goodbye();};";
    let result = parse_class(&input, &vec![]);

    assert_eq!(
        result,
        Ok((
            "",
            CppClass {
                name: "test",
                methods: at(
                    InheritanceVisibility::Private,
                    vec![
                        CppFunction {
                            name: "hello",
                            return_type: None,
                            ..Default::default()
                        },
                        CppFunction {
                            name: "goodbye",
                            return_type: None,
                            ..Default::default()
                        }
                    ]
                ),
                ..CppClass::default()
            }
        ))
    );
}

#[test]
fn test_parse_class_with_multiple_mixed_methods() {
    let input = format!("class test {{void hello();\nauto goodbye() -> int;}}");
    let result = parse_class(&input, &vec![]);

    assert_eq!(
        result,
        Ok((
            "",
            CppClass {
                name: "test",
                methods: at(
                    InheritanceVisibility::Private,
                    vec![
                        CppFunction {
                            name: "hello",
                            ..Default::default()
                        },
                        CppFunction {
                            name: "goodbye",
                            return_type: Some(Path(vec!["int"])),
                            ..Default::default()
                        }
                    ]
                ),
                ..CppClass::default()
            }
        ))
    );
}

#[test]
fn test_simple_class() {
    let input = r#"class TestClass {
        private:
            // says only hello to itself
            auto helloPrivate() -> void;

        protected:
            // says only hello to its relatives
            auto helloProtected() -> void;

        public:
            /*
             * says hello to everybody that listens
             */
            auto hello() -> void;

        private:
            /// internal counter on how many times others were greeted
            int count{0};
    };"#;

    let result = parse_class(input, &vec![]);

    assert_eq!(
        result,
        Ok((
            "",
            CppClass {
                name: "TestClass",
                methods: vec![
                    (
                        InheritanceVisibility::Private,
                        CppFunction {
                            name: "helloPrivate",
                            comment: Some(CppComment {
                                comment: "says only hello to itself".to_string(),
                            }),
                            ..Default::default()
                        },
                    ),
                    (
                        InheritanceVisibility::Protected,
                        CppFunction {
                            name: "helloProtected",
                            comment: Some(CppComment {
                                comment: "says only hello to its relatives".to_string(),
                            }),
                            ..Default::default()
                        },
                    ),
                    (
                        InheritanceVisibility::Public,
                        CppFunction {
                            name: "hello",
                            comment: Some(CppComment {
                                comment: "says hello to everybody that listens".to_string(),
                            }),
                            ..Default::default()
                        },
                    ),
                ],
                members: at(
                    InheritanceVisibility::Private,
                    vec![CppMember {
                        name: "count",
                        ctype: Path(vec!["int"]),
                        default_value: Some(Path(vec!["0"])),
                        comment: Some(CppComment {
                            comment: "internal counter on how many times others were greeted"
                                .to_string(),
                        }),
                        ..Default::default()
                    }]
                ),
                ..CppClass::default()
            }
        ))
    );
}

#[test]
fn forward_declaration_has_nothing_in_it() {
    let result = parse_class::<CppClass>("class Foo;", &vec![]);
    assert_eq!(
        result,
        Ok((
            "",
            CppClass {
                name: "Foo",
                api: None,
                parents: vec![],
                methods: vec![],
                members: vec![],
                inner_classes: vec![],
            }
        ))
    );
    let (rest, class) = parse_class::<CppClass>("class MY_API Foo ; int x;", &vec![]).unwrap();
    assert_eq!(rest, " int x;");
    assert_eq!(class.name, "Foo");
    assert_eq!(class.api, None);
}

#[test]
fn pure_virtual_method_in_a_public_section() {
    let (rest, class) =
        parse_class::<CppClass>("class Base { public: virtual void Tick() = 0; };", &vec![])
            .unwrap();
    assert_eq!(rest, "");
    assert_eq!(class.name, "Base");
    assert_eq!(
        class.methods,
        vec![(
            InheritanceVisibility::Public,
            CppFunction {
                name: "Tick",
                return_type: None,
                params: vec![],
                special: Some(SpecialMember::PureVirtual),
                storage_qualifiers: vec![CppStorageQualifier::Virtual],
                ..Default::default()
            }
        )]
    );
    assert!(class.members.is_empty());
    assert!(class.inner_classes.is_empty());
    assert!(class.parents.is_empty());
}

#[test]
fn items_go_to_the_level_that_holds() {
    let input = "struct S { int a; void f(); public: int b; struct T {}; void g(); \
                 protected: int c; public: int d; private: void h(); };";
    let (rest, class) = parse_class::<CppClass>(input, &vec![]).unwrap();
    assert_eq!(rest, "");
    let names = |level| -> Vec<&str> {
        items_at(&class.members, level)
            .into_iter()
            .map(|m| m.name)
            .collect()
    };
    assert_eq!(names(InheritanceVisibility::Private), vec!["a"]);
    assert_eq!(names(InheritanceVisibility::Public), vec!["b", "d"]);
    assert_eq!(names(InheritanceVisibility::Protected), vec!["c"]);
    assert_eq!(names(InheritanceVisibility::Virtual), Vec::<&str>::new());
    assert_eq!(names(InheritanceVisibility::Empty), Vec::<&str>::new());
    let methods = |level| -> Vec<&str> {
        items_at(&class.methods, level)
            .into_iter()
            .map(|m| m.name)
            .collect()
    };
    assert_eq!(methods(InheritanceVisibility::Private), vec!["f", "h"]);
    assert_eq!(methods(InheritanceVisibility::Public), vec!["g"]);
    assert_eq!(methods(InheritanceVisibility::Protected), Vec::<&str>::new());
    let inner: Vec<(InheritanceVisibility, &str)> = class
        .inner_classes
        .iter()
        .map(|(level, c)| (*level, c.name))
        .collect();
    assert_eq!(inner, vec![(InheritanceVisibility::Public, "T")]);
    let order: Vec<&str> = class.members.iter().map(|(_, m)| m.name).collect();
    assert_eq!(order, vec!["a", "b", "c", "d"]);
}

#[test]
fn levels_compare_and_convert() {
    assert!(same_level(
        InheritanceVisibility::Public,
        InheritanceVisibility::Public
    ));
    assert!(!same_level(
        InheritanceVisibility::Public,
        InheritanceVisibility::Private
    ));
    assert!(same_level(
        InheritanceVisibility::Empty,
        InheritanceVisibility::Empty
    ));
    assert_eq!(InheritanceVisibility::from("virtual"), InheritanceVisibility::Virtual);
    assert_eq!(InheritanceVisibility::from("protected"), InheritanceVisibility::Protected);
    assert_eq!(InheritanceVisibility::from("Public"), InheritanceVisibility::Empty);
    assert_eq!(InheritanceVisibility::from(""), InheritanceVisibility::Empty);
}

#[test]
fn a_line_that_is_no_item_is_a_failure() {
    assert_eq!(
        parse_class::<CppClass>("class A { int x; ??? };", &vec![]),
        Err(ParseError {
            rest: "??? };",
            expected: Expected::Char('}'),
            scope: vec!["A"],
        })
    );
    assert_eq!(
        parse_class::<CppClass>("class A : public B int x;", &vec![]),
        Err(ParseError {
            rest: "int x;",
            expected: Expected::Char('{'),
            scope: vec![],
        })
    );
    assert_eq!(
        parse_class::<CppClass>("union A {};", &vec![]),
        Err(ParseError {
            rest: "union A {};",
            expected: Expected::Word,
            scope: vec![],
        })
    );
}

#[test]
fn a_body_that_is_not_closed_is_a_failure() {
    assert_eq!(
        parse_class::<CppClass>("class A { void f();", &vec![]),
        Err(ParseError {
            rest: "",
            expected: Expected::Progress,
            scope: vec!["A"],
        })
    );
}

#[test]
fn virtual_base_and_several_parents() {
    let (_, class) =
        parse_class::<CppClass>("class D : virtual B, protected std::vector<int> , C {}", &vec![])
            .unwrap();
    let levels: Vec<InheritanceVisibility> = class.parents.iter().map(|p| p.visibility).collect();
    assert_eq!(
        levels,
        vec![
            InheritanceVisibility::Virtual,
            InheritanceVisibility::Protected,
            InheritanceVisibility::Empty
        ]
    );
}

#[test]
fn a_failure_in_a_body_names_the_classes_around_it() {
    let input = "class Outer { int a; struct Middle { class Inner { int b; !!! }; }; };";
    assert_eq!(
        parse_class::<CppClass>(input, &vec![]),
        Err(ParseError {
            rest: "!!! }; }; };",
            expected: Expected::Char('}'),
            scope: vec!["Outer", "Middle", "Inner"],
        })
    );
    let input = "class Outer { class Inner { void f(); ";
    assert_eq!(
        parse_class::<CppClass>(input, &vec![]),
        Err(ParseError {
            rest: "",
            expected: Expected::Progress,
            scope: vec!["Outer", "Inner"],
        })
    );
}

#[test]
fn a_failure_in_the_head_of_a_class_lies_in_no_body() {
    assert_eq!(
        parse_class::<CppClass>("class A { class B : public C int x; };", &vec![]),
        Err(ParseError {
            rest: "class B : public C int x; };",
            expected: Expected::Char('}'),
            scope: vec!["A"],
        })
    );
}
