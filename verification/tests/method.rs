use cpp_header_parser::parser::cpp::comment::CppComment;
use cpp_header_parser::parser::cpp::ctype::CType;
use cpp_header_parser::parser::cpp::ctype::CType::{Const, Function, Generic, Path, Pointer, Reference};
use cpp_header_parser::parser::cpp::method::{
    parse_brace_block, parse_method_params, CppFunction, CppMethodParam,
};
use cpp_header_parser::parser::generic::method::CppStorageQualifier::Virtual;
use cpp_header_parser::parser::generic::method::PostParamQualifier::Final;
use cpp_header_parser::parser::generic::method::{
    is_void_type, parse_method, resolve_return_type, CppStorageQualifier, PostParamQualifier,
    SpecialMember,
};
use cpp_header_parser::text::{Expected, ParseError};

#[test]
fn test_empty_braces() {
    let input = "{}";
    assert_eq!(parse_brace_block(&input), Ok(("", "")));
}

#[test]
fn test_only_braces() {
    let input = "{} CONTENT {}";
    assert_eq!(parse_brace_block(&input), Ok((" CONTENT {}", "")));
}

#[test]
fn test_parse_nested_braces() {
    let input = r#"{
                    int j = 42;
                    for(int i = 0; i < j; i++)
                    {
                        std::cout << j << std::endl;
                    }
                }"#;
    assert_eq!(parse_brace_block(input), Ok(("", "")))
}

#[test]
fn test_fails_for_invalid_argument_input() {
    let input = "void muu(#INVALID) = 0";
    let result = parse_method::<CppFunction>(input);

    assert_eq!(
        result,
        Err(ParseError {
            rest: "#INVALID) = 0",
            expected: Expected::Char(')'),
            scope: vec![],
        })
    );
}
#[test]
fn test_method_without_params() {
    let input = "void method()";
    let result = parse_method::<CppFunction>(input);

    assert_eq!(
        result,
        Ok((
            "",
            CppFunction {
                name: "method",
                ..Default::default()
            }
        ))
    );
}

#[test]
fn test_method_with_optional_param() {
    let input = "void method(const int i = 0)";
    let result = parse_method::<CppFunction>(input);

    assert_eq!(
        result,
        Ok((
            "",
            CppFunction {
                name: "method",
                params: vec![CppMethodParam {
                    name: Some("i"),
                    ctype: Const(Box::from(Path(vec!["int"]))),
                    default_value: Some(Path(vec!["0"])),
                }],
                ..Default::default()
            }
        ))
    );
}

#[test]
fn test_method_with_c_function_param() {
    let input = "void method(int (*f)(int, int))";
    let result = parse_method::<CppFunction>(input);

    assert_eq!(
        result,
        Ok((
            "",
            CppFunction {
                name: "method",
                params: vec![CppMethodParam {
                    name: None,
                    ctype: CType::Function(
                        Box::from(CType::Path(vec!["int"])),
                        vec![CType::Path(vec!["int"]), CType::Path(vec!["int"])]
                    ),
                    default_value: None,
                }],
                ..Default::default()
            }
        ))
    );
}

#[test]
fn test_method_with_std_function_param() {
    let input = "void method(const std::function<int(int, int)>& f)";
    let result = parse_method::<CppFunction>(input);

    assert_eq!(
        result,
        Ok((
            "",
            CppFunction {
                name: "method",
                params: vec![CppMethodParam {
                    name: Some("f"),
                    ctype: Reference(Box::from(Const(Box::from(Generic(
                        Box::from(Path(vec!["std", "function"])),
                        vec![CType::Function(
                            Box::from(CType::Path(vec!["int"])),
                            vec![CType::Path(vec!["int"]), CType::Path(vec!["int"])]
                        )]
                    ))))),
                    default_value: None,
                }],
                ..Default::default()
            }
        ))
    );
}

#[test]
fn test_interface_method() {
    let input = "void method() = 0";
    let result = parse_method::<CppFunction>(input);

    assert_eq!(
        result,
        Ok((
            "",
            CppFunction {
                name: "method",
                special: Some(SpecialMember::PureVirtual),
                ..Default::default()
            }
        ))
    );
}

#[test]
fn test_inline_method_without_params() {
    let input = r#"void method(){
            int i=42;
        }"#;
    let result = parse_method::<CppFunction>(input);

    assert_eq!(
        result,
        Ok((
            "",
            CppFunction {
                name: "method",
                ..Default::default()
            }
        ))
    );
}

#[test]
fn test_inline_method_oneline_without_params() {
    let input = r#"// Say hello to everyone
            void sayHello(){ std::cout << "Hi" << std::endl; }"#;
    let result = parse_method::<CppFunction>(input);

    assert_eq!(
        result,
        Ok((
            "",
            CppFunction {
                name: "sayHello",
                comment: Some(CppComment {
                    comment: "Say hello to everyone".to_string()
                }),
                ..Default::default()
            }
        ))
    );
}

#[test]
fn test_method_with_single_line_comment() {
    let input = r#"// does something
            void method()
        "#;
    let result = parse_method::<CppFunction>(input);

    assert_eq!(
        result,
        Ok((
            "",
            CppFunction {
                name: "method",
                comment: Some(CppComment {
                    comment: "does something".to_string()
                }),
                ..Default::default()
            }
        ))
    );
}

#[test]
fn test_method_with_multi_line_comment() {
    let input = r#"/**
             * does something
             *
             * @return nothing
             */
            void method()
        "#;

    let result = parse_method::<CppFunction>(input);

    assert_eq!(
        result,
        Ok((
            "",
            CppFunction {
                name: "method",
                comment: Some(CppComment {
                    comment: "does something\n@return nothing".to_string()
                }),
                ..Default::default()
            }
        ))
    );
}

#[test]
fn test_method_with_virtual_modifier() {
    for storage_qualifier in ["virtual", "static"] {
        let input = format!("{} void method()", storage_qualifier);

        let result = parse_method::<CppFunction>(&input);

        assert_eq!(
            result,
            Ok((
                "",
                CppFunction {
                    name: "method",
                    storage_qualifiers: vec![CppStorageQualifier::from_word(storage_qualifier).unwrap()],
                    ..Default::default()
                }
            ))
        );
    }
}

#[test]
fn test_method_with_inheritance_modifier() {
    for post_param_qualifier in ["override", "final"] {
        let input = format!("virtual void method() {}", post_param_qualifier);
        let result = parse_method::<CppFunction>(&input);

        assert_eq!(
            result,
            Ok((
                "",
                CppFunction {
                    name: "method",
                    storage_qualifiers: vec![Virtual],
                    post_param_qualifiers: vec![PostParamQualifier::from_word(post_param_qualifier).unwrap()],
                    ..Default::default()
                }
            ))
        );
    }
}

#[test]
fn test_method_with_param() {
    let input = "void method(int a) final";
    let result = parse_method::<CppFunction>(input);

    assert_eq!(
        result,
        Ok((
            "",
            CppFunction {
                name: "method",
                params: vec![CppMethodParam {
                    name: Some("a"),
                    ctype: Path(vec!["int"]),
                    default_value: None
                }],
                post_param_qualifiers: vec![Final],
                ..Default::default()
            }
        ))
    );
}

#[test]
fn test_method_with_template_return_type() {
    let input = "TArray<int32> method()";
    let result = parse_method::<CppFunction>(input);

    assert_eq!(
        result,
        Ok((
            "",
            CppFunction {
                name: "method",
                return_type: Some(Generic(
                    Box::from(Path(vec!["TArray"])),
                    vec![Path(vec!["int32"])]
                )),
                ..Default::default()
            }
        ))
    );
}

#[test]
fn test_method_with_reference_param() {
    let input = "void method(int& a) final";
    let result = parse_method::<CppFunction>(input);

    assert_eq!(
        result,
        Ok((
            "",
            CppFunction {
                name: "method",
                params: vec![CppMethodParam {
                    name: Some("a"),
                    ctype: Reference(Box::from(Path(vec!["int"]))),
                    default_value: None
                }],
                post_param_qualifiers: vec![Final],
                ..Default::default()
            }
        ))
    );
}

#[test]
fn test_method_with_const_reference_param() {
    let input = "void method(const int& a) final";
    let result = parse_method::<CppFunction>(input);

    assert_eq!(
        result,
        Ok((
            "",
            CppFunction {
                name: "method",
                params: vec![CppMethodParam {
                    name: Some("a"),
                    ctype: Reference(Box::from(Const(Box::from(Path(vec!["int"]))))),
                    default_value: None
                }],
                post_param_qualifiers: vec![Final],
                ..Default::default()
            }
        ))
    );
}

#[test]
fn test_method_with_pointer_param() {
    let input = "void method(int* a) final";
    let result = parse_method::<CppFunction>(input);

    assert_eq!(
        result,
        Ok((
            "",
            CppFunction {
                name: "method",
                params: vec![CppMethodParam {
                    name: Some("a"),
                    ctype: Pointer(Box::from(Path(vec!["int"]))),
                    default_value: None
                }],
                post_param_qualifiers: vec![Final],
                ..Default::default()
            }
        ))
    );
}

#[test]
fn test_method_with_multiple_params() {
    let input = "void method(int& a, std::string b) final";
    let result = parse_method::<CppFunction>(input);

    assert_eq!(
        result,
        Ok((
            "",
            CppFunction {
                name: "method",
                params: vec![
                    CppMethodParam {
                        name: Some("a"),
                        ctype: Reference(Box::from(Path(vec!["int"]))),
                        default_value: None
                    },
                    CppMethodParam {
                        name: Some("b"),
                        ctype: Path(vec!["std", "string"]),
                        default_value: None
                    }
                ],
                post_param_qualifiers: vec![Final],
                ..Default::default()
            }
        ))
    );
}

#[test]
fn test_method_with_template_param() {
    let input = "void method(TArray<int32> a) final";
    let result = parse_method::<CppFunction>(input);

    assert_eq!(
        result,
        Ok((
            "",
            CppFunction {
                name: "method",
                params: vec![CppMethodParam {
                    name: Some("a"),
                    ctype: Generic(Box::from(Path(vec!["TArray"])), vec![Path(vec!["int32"])]),
                    default_value: None
                }],
                post_param_qualifiers: vec![Final],
                ..Default::default()
            }
        ))
    );
}

#[test]
fn test_const_method() {
    let input = "void method() const";
    let result = parse_method::<CppFunction>(input);

    assert_eq!(
        result,
        Ok((
            "",
            CppFunction {
                name: "method",
                post_param_qualifiers: vec![PostParamQualifier::Const],
                ..Default::default()
            }
        ))
    );
}

#[test]
fn test_method_with_trailing_return_type() {
    let input = "auto method(int* a) -> int** final";
    let result = parse_method::<CppFunction>(input);

    assert_eq!(
        result,
        Ok((
            "",
            CppFunction {
                name: "method",
                return_type: Some(Pointer(Box::from(Pointer(Box::from(Path(vec!["int"])))))),
                params: vec![CppMethodParam {
                    name: Some("a"),
                    ctype: Pointer(Box::from(Path(vec!["int"]))),
                    default_value: None
                }],
                post_param_qualifiers: vec![Final],
                ..Default::default()
            }
        ))
    );
}

#[test]
fn test_method_with_lambda_param() {
    let input = "auto method(std::function<int(int)>& lambda) -> int";
    let result = parse_method::<CppFunction>(input);

    assert_eq!(
        result,
        Ok((
            "",
            CppFunction {
                name: "method",
                return_type: Some(Path(vec!["int"])),
                params: vec![CppMethodParam {
                    name: Some("lambda"),
                    ctype: Reference(Box::from(Generic(
                        Box::from(Path(vec!["std", "function"])),
                        vec![Function(
                            Box::from(Path(vec!["int"])),
                            vec![Path(vec!["int"])],
                        )],
                    ))),
                    default_value: None
                }],
                ..Default::default()
            }
        ))
    );
}

#[test]
fn test_template_method() {
    let input = "template<typename T>T method()";
    let result = parse_method::<CppFunction>(input);

    assert_eq!(
        result,
        Ok((
            "",
            CppFunction {
                name: "method",
                template_params: vec![Path(vec!["T"])],
                return_type: Some(Path(vec!["T"])),
                ..Default::default()
            }
        ))
    );
}

#[test]
fn test_template_enable_if_method() {
    let input = "template<typename Integer, typename = std::enable_if_t<std::is_integral<Integer>::value>> void method(Integer a)";
    let result = parse_method::<CppFunction>(input);

    assert_eq!(
        result,
        Ok((
            "",
            CppFunction {
                name: "method",
                return_type: None,
                template_params: vec![Path(vec!["Integer"]), Path(vec![])],

                params: vec![CppMethodParam {
                    name: Some("a"),
                    ctype: Path(vec!["Integer"]),
                    default_value: None
                },],
                ..Default::default()
            }
        ))
    );
}

#[test]
fn test_method_with_unnamed_param() {
    let input = "void method(int)";
    let result = parse_method::<CppFunction>(input);

    assert_eq!(
        result,
        Ok((
            "",
            CppFunction {
                name: "method",
                return_type: None,
                params: vec![CppMethodParam {
                    name: None,
                    ctype: Path(vec!["int"]),
                    default_value: None
                },],
                ..Default::default()
            }
        ))
    );
}

#[test]
fn test_empty_template_method() {
    let input = "template<> void method()";
    let result = parse_method::<CppFunction>(input);

    assert_eq!(
        result,
        Ok((
            "",
            CppFunction {
                name: "method",
                ..Default::default()
            }
        ))
    );
}
#[test]
fn test_multiple_templates_method() {
    let input = "template<typename T, class S>T method()";
    let result = parse_method::<CppFunction>(input);
    assert_eq!(
        result,
        Ok((
            "",
            CppFunction {
                name: "method",
                template_params: vec![Path(vec!["T"]), Path(vec!["S"])],
                return_type: Some(Path(vec!["T"])),
                ..Default::default()
            }
        ))
    );
}

#[test]
fn void_and_missing_return_type_are_the_same() {
    let (_, with_void) = parse_method::<CppFunction>("void f();").unwrap();
    let (_, constructor) = parse_method::<CppFunction>("C();").unwrap();
    assert_eq!(with_void.return_type, None);
    assert_eq!(constructor.return_type, None);
    assert_eq!(with_void.name, "f");
    assert_eq!(constructor.name, "C");
    let (rest, trailing_void) = parse_method::<CppFunction>("auto g() -> void;").unwrap();
    assert_eq!(trailing_void.return_type, None);
    assert_eq!(rest, ";");
}

#[test]
fn return_type_resolution() {
    assert_eq!(resolve_return_type(None, None), None);
    assert_eq!(
        resolve_return_type(Some(Path(vec!["int"])), None),
        Some(Path(vec!["int"]))
    );
    assert_eq!(
        resolve_return_type(None, Some(Path(vec!["int"]))),
        Some(Path(vec!["int"]))
    );
    assert_eq!(
        resolve_return_type(Some(CType::Auto), Some(Path(vec!["int"]))),
        Some(Path(vec!["int"]))
    );
    assert_eq!(
        resolve_return_type(Some(Path(vec!["long"])), Some(Path(vec!["int"]))),
        Some(Path(vec!["int"]))
    );
    assert_eq!(resolve_return_type(Some(Path(vec!["void"])), None), None);
    assert_eq!(
        resolve_return_type(Some(Path(vec!["int"])), Some(Path(vec!["void"]))),
        None
    );
    assert_eq!(
        resolve_return_type(Some(Pointer(Box::new(Path(vec!["void"])))), None),
        Some(Pointer(Box::new(Path(vec!["void"]))))
    );
    assert!(is_void_type(&Path(vec!["void"])));
    assert!(!is_void_type(&Path(vec!["std", "void"])));
    assert!(!is_void_type(&Path(vec![])));
    assert!(!is_void_type(&CType::Auto));
}

#[test]
fn special_member_marks() {
    let (_, m) = parse_method::<CppFunction>("virtual void f() = 0;").unwrap();
    assert_eq!(m.special, Some(SpecialMember::PureVirtual));
    let (_, m) = parse_method::<CppFunction>("Foo() = default;").unwrap();
    assert_eq!(m.special, Some(SpecialMember::Defaulted));
    let (rest, m) = parse_method::<CppFunction>("Foo(const Foo&) = delete;").unwrap();
    assert_eq!(m.special, Some(SpecialMember::Deleted));
    assert_eq!(rest, ";");
    let (rest, m) = parse_method::<CppFunction>("void f() = 7;").unwrap();
    assert_eq!(m.special, None);
    assert_eq!(rest, "= 7;");
}

#[test]
fn destructor_and_operator_names() {
    let (_, m) = parse_method::<CppFunction>("virtual ~Foo();").unwrap();
    assert_eq!(m.name, "~Foo");
    assert_eq!(m.storage_qualifiers, vec![Virtual]);
    let (rest, m) = parse_method::<CppFunction>("bool operator==(const Foo& other) const;").unwrap();
    assert_eq!(m.name, "operator==");
    assert_eq!(m.return_type, Some(Path(vec!["bool"])));
    assert_eq!(m.post_param_qualifiers, vec![PostParamQualifier::Const]);
    assert_eq!(rest, ";");
    let (_, m) = parse_method::<CppFunction>("Foo& operator+=(int n)").unwrap();
    assert_eq!(m.name, "operator+=");
    let (_, m) = parse_method::<CppFunction>("auto operator<=>(int n)").unwrap();
    assert_eq!(m.name, "operator<=>");
    let (_, m) = parse_method::<CppFunction>("Foo operator++(int)").unwrap();
    assert_eq!(m.name, "operator++");
    let (_, m) = parse_method::<CppFunction>("int operator()(int n)").unwrap();
    assert_eq!(m.name, "operator()");
    let (_, m) = parse_method::<CppFunction>("Foo operator-(int n)").unwrap();
    assert_eq!(m.name, "operator-");
    let (_, m) = parse_method::<CppFunction>("int operator,(int n)").unwrap();
    assert_eq!(m.name, "operator,");
}

#[test]
fn member_initializers_are_passed_over() {
    let (rest, m) = parse_method::<CppFunction>("Foo(int a) : a_(a), b_(2) {} int x;").unwrap();
    assert_eq!(m.name, "Foo");
    assert_eq!(m.params.len(), 1);
    assert_eq!(rest, " int x;");
}

#[test]
fn qualifiers_in_any_order_and_number() {
    let (_, m) =
        parse_method::<CppFunction>("static inline constexpr int f() const noexcept final override").unwrap();
    assert_eq!(
        m.storage_qualifiers,
        vec![
            CppStorageQualifier::Static,
            CppStorageQualifier::Inline,
            CppStorageQualifier::Constexpr
        ]
    );
    assert_eq!(
        m.post_param_qualifiers,
        vec![
            PostParamQualifier::Const,
            PostParamQualifier::Noexcept,
            PostParamQualifier::Final,
            PostParamQualifier::Override
        ]
    );
    let (_, m) = parse_method::<CppFunction>("explicit friend Foo(int)").unwrap();
    assert_eq!(
        m.storage_qualifiers,
        vec![CppStorageQualifier::Explicit, CppStorageQualifier::Friend]
    );
}

#[test]
fn words_of_qualifiers() {
    assert_eq!(CppStorageQualifier::from_word("inline"), Some(CppStorageQualifier::Inline));
    assert_eq!(CppStorageQualifier::from_word("constexpr"), Some(CppStorageQualifier::Constexpr));
    assert_eq!(CppStorageQualifier::from_word("explicit"), Some(CppStorageQualifier::Explicit));
    assert_eq!(CppStorageQualifier::from_word("friend"), Some(CppStorageQualifier::Friend));
    assert_eq!(CppStorageQualifier::from_word("const"), None);
    assert_eq!(PostParamQualifier::from_word("const"), Some(PostParamQualifier::Const));
    assert_eq!(PostParamQualifier::from_word("noexcept"), Some(PostParamQualifier::Noexcept));
    assert_eq!(PostParamQualifier::from_word("virtual"), None);
}

#[test]
fn a_method_needs_a_name_and_parameters() {
    assert_eq!(
        parse_method::<CppFunction>("(int)"),
        Err(ParseError {
            rest: "(int)",
            expected: Expected::Identifier,
            scope: vec![],
        })
    );
    assert_eq!(
        parse_method::<CppFunction>("int x;"),
        Err(ParseError {
            rest: ";",
            expected: Expected::Char('('),
            scope: vec![],
        })
    );
}

#[test]
fn parameter_lists() {
    assert_eq!(parse_method_params("()"), Ok(("", vec![])));
    assert_eq!(parse_method_params("(  ) x"), Ok(("x", vec![])));
    assert_eq!(
        parse_method_params("(int a = 3, char)"),
        Ok((
            "",
            vec![
                CppMethodParam {
                    name: Some("a"),
                    ctype: Path(vec!["int"]),
                    default_value: Some(Path(vec!["3"]))
                },
                CppMethodParam {
                    name: None,
                    ctype: Path(vec!["char"]),
                    default_value: None
                }
            ]
        ))
    );
    assert_eq!(
        parse_method_params("int a)"),
        Err(ParseError {
            rest: "int a)",
            expected: Expected::Char('('),
            scope: vec![],
        })
    );
    assert_eq!(
        parse_method_params("(int a"),
        Err(ParseError {
            rest: "",
            expected: Expected::Char(')'),
            scope: vec![],
        })
    );
}

#[test]
fn unbalanced_braces_fail() {
    assert_eq!(
        parse_brace_block("{ a { b }"),
        Err(ParseError {
            rest: "",
            expected: Expected::Char('}'),
            scope: vec![],
        })
    );
    assert_eq!(
        parse_brace_block("x{}"),
        Err(ParseError {
            rest: "x{}",
            expected: Expected::Char('{'),
            scope: vec![],
        })
    );
    assert_eq!(parse_brace_block("{{}{}}}"), Ok(("}", "")));
}

#[test]
fn a_name_alone_may_follow_blanks() {
    let (rest, m) = parse_method::<CppFunction>("// builds\n\tFoo(int a);").unwrap();
    assert_eq!(rest, ";");
    assert_eq!(m.name, "Foo");
    assert_eq!(m.return_type, None);
    assert_eq!(
        m.comment,
        Some(CppComment {
            comment: "builds".to_string()
        })
    );
}

#[test]
fn braces_in_texts_count_like_all_braces() {
    assert_eq!(
        parse_brace_block("{ s = \"}\"; } tail"),
        Ok(("\"; } tail", ""))
    );
    assert_eq!(parse_brace_block("{ s = \"{\"; } }"), Ok(("", "")));
}
