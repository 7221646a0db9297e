use cpp_header_parser::parser::cpp::ctype::CType::{
    Const, Function, Generic, MemberAccess, Path, Pointer, Reference,
};
use cpp_header_parser::parser::cpp::ctype::{is_ident_char, parse_cpp_type, CType};

#[test]
fn test_simple_identifier() {
    let (_, ty) = parse_cpp_type("String").unwrap();
    assert_eq!(ty, Path(vec!["String"]));
}

#[test]
fn test_generic() {
    let (_, ty) = parse_cpp_type("String<Some>").unwrap();
    assert_eq!(
        ty,
        Generic(Box::new(Path(vec!["String"])), vec![Path(vec!["Some"])])
    );
}

#[test]
fn test_const() {
    assert_eq!(
        parse_cpp_type("const int&"),
        Ok((
            "",
            CType::Reference(Box::new(CType::Const(Box::new(CType::Path(vec!["int"]))))),
        ))
    );

    assert_eq!(
        parse_cpp_type("const std::vector<int>*"),
        Ok((
            "",
            CType::Pointer(Box::new(CType::Const(Box::new(CType::Generic(
                Box::new(CType::Path(vec!["std", "vector"])),
                vec![CType::Path(vec!["int"])]
            ))))),
        ))
    );
}

#[test]
fn test_nested_generic() {
    let (_, ty) = parse_cpp_type("String<Array<Some>>").unwrap();
    assert_eq!(
        ty,
        Generic(
            Box::new(Path(vec!["String"])),
            vec![Generic(
                Box::from(Path(vec!["Array"])),
                vec![Path(vec!["Some"])]
            )]
        )
    );
}

#[test]
fn test_generic_with_pointer() {
    let (_, ty) = parse_cpp_type("String<Array*>").unwrap();
    assert_eq!(
        ty,
        Generic(
            Box::new(Path(vec!["String"])),
            vec![CType::Pointer(Box::new(Path(vec!["Array"])))]
        )
    );
}

#[test]
fn test_reference() {
    let (_, ty) = parse_cpp_type("String&").unwrap();
    assert_eq!(ty, Reference(Box::new(Path(vec!["String"]))))
}

#[test]
fn test_double_reference_nested() {
    let (_, ty) = parse_cpp_type("Array<String&>&").unwrap();
    assert_eq!(
        ty,
        Reference(Box::new(Generic(
            Box::new(Path(vec!["Array"])),
            vec![Reference(Box::new(Path(vec!["String"])))]
        )))
    )
}

#[test]
fn test_double_reference() {
    let (_, ty) = parse_cpp_type("Array&&").unwrap();
    assert_eq!(
        ty,
        Reference(Box::new(Reference(Box::new(Path(vec!["Array"])))))
    );
}

#[test]
fn test_double_pointer() {
    let (_, ty) = parse_cpp_type("Array**").unwrap();
    assert_eq!(
        ty,
        CType::Pointer(Box::new(CType::Pointer(Box::new(Path(vec!["Array"])))))
    );
}

#[test]
fn test_lambda() {
    let (input, ty) = parse_cpp_type("std::function<int(int)>&").unwrap();

    assert_eq!(input, "");
    assert_eq!(
        ty,
        Reference(Box::from(Generic(
            Box::from(Path(vec!["std", "function"])),
            vec![Function(
                Box::from(Path(vec!["int"])),
                vec![Path(vec!["int"])]
            )]
        )))
    );
}

#[test]
fn test_complex_cpp_type() {
    let (input, ty) =
        parse_cpp_type("std::enable_if_t<std::is_integral<Integer>::value>").unwrap();
    assert_eq!(input, "");
    assert_eq!(
        ty,
        Generic(
            Box::from(Path(vec!["std", "enable_if_t"])),
            vec![MemberAccess(
                Box::from(Generic(
                    Box::from(Path(vec!["std", "is_integral"])),
                    vec![Path(vec!["Integer"])]
                )),
                "value"
            )]
        )
    );
}

#[test]
fn pointer_and_reference_wrap_left_to_right() {
    assert_eq!(
        parse_cpp_type("T**"),
        Ok(("", Pointer(Box::new(Pointer(Box::new(Path(vec!["T"])))))))
    );
    assert_eq!(
        parse_cpp_type("T&&"),
        Ok(("", Reference(Box::new(Reference(Box::new(Path(vec!["T"])))))))
    );
    assert_eq!(
        parse_cpp_type("T*&"),
        Ok(("", Reference(Box::new(Pointer(Box::new(Path(vec!["T"])))))))
    );
    assert_eq!(
        parse_cpp_type("T &*"),
        Ok(("", Pointer(Box::new(Reference(Box::new(Path(vec!["T"])))))))
    );
}

#[test]
fn const_on_either_side_wraps_once() {
    let expected = Reference(Box::new(Const(Box::new(Path(vec!["int"])))));
    assert_eq!(parse_cpp_type("const int&"), Ok(("", expected)));
    let expected = Reference(Box::new(Const(Box::new(Path(vec!["int"])))));
    assert_eq!(parse_cpp_type("int const&"), Ok(("", expected)));
    let expected = Const(Box::new(Path(vec!["int"])));
    assert_eq!(parse_cpp_type("const int const"), Ok(("", expected)));
}

#[test]
fn std_function_with_two_parameters() {
    assert_eq!(
        parse_cpp_type("std::function<int(int,int)>"),
        Ok((
            "",
            Generic(
                Box::new(Path(vec!["std", "function"])),
                vec![Function(
                    Box::new(Path(vec!["int"])),
                    vec![Path(vec!["int"]), Path(vec!["int"])]
                )]
            )
        ))
    );
}

#[test]
fn auto_alone_is_the_placeholder() {
    assert_eq!(parse_cpp_type("auto"), Ok(("", CType::Auto)));
    assert_eq!(parse_cpp_type("auto x"), Ok((" x", CType::Auto)));
    assert_eq!(parse_cpp_type("std::auto"), Ok(("", Path(vec!["std", "auto"]))));
    assert_eq!(parse_cpp_type("automatic"), Ok(("", Path(vec!["automatic"]))));
}

#[test]
fn empty_path_where_no_name_starts() {
    assert_eq!(parse_cpp_type(""), Ok(("", Path(vec![]))));
    assert_eq!(parse_cpp_type("#x"), Ok(("#x", Path(vec![]))));
    assert_eq!(parse_cpp_type("  ;"), Ok(("  ;", Path(vec![]))));
    assert_eq!(CType::default(), Path(vec![]));
}

#[test]
fn class_and_typename_before_a_segment() {
    assert_eq!(parse_cpp_type("typename T"), Ok(("", Path(vec!["T"]))));
    assert_eq!(parse_cpp_type("class Foo::Bar"), Ok(("", Path(vec!["Foo", "Bar"]))));
}

#[test]
fn unclosed_brackets_are_no_part_of_the_type() {
    assert_eq!(parse_cpp_type("vector<int"), Ok(("<int", Path(vec!["vector"]))));
    assert_eq!(parse_cpp_type("f(int"), Ok(("(int", Path(vec!["f"]))));
}

#[test]
fn parameter_names_in_function_types_are_passed_over() {
    assert_eq!(
        parse_cpp_type("void(int a, char b)"),
        Ok((
            "",
            Function(
                Box::new(Path(vec!["void"])),
                vec![Path(vec!["int"]), Path(vec!["char"])]
            )
        ))
    );
}

#[test]
fn nameless_declarator_is_a_function_type() {
    assert_eq!(
        parse_cpp_type("int (*)(int, char)"),
        Ok((
            "",
            Function(
                Box::new(Path(vec!["int"])),
                vec![Path(vec!["int"]), Path(vec!["char"])]
            )
        ))
    );
    assert_eq!(
        parse_cpp_type("int (*f)(int)"),
        Ok((" (*f)(int)", Path(vec!["int"])))
    );
}

#[test]
fn identifier_characters() {
    assert!(is_ident_char('a'));
    assert!(is_ident_char('Z'));
    assert!(is_ident_char('7'));
    assert!(is_ident_char('_'));
    assert!(is_ident_char('é'));
    assert!(!is_ident_char('-'));
    assert!(!is_ident_char(':'));
    assert!(!is_ident_char(' '));
}

#[test]
fn non_ascii_text_is_kept_whole() {
    assert_eq!(
        parse_cpp_type("Größe<Zähler>* é"),
        Ok((
            " é",
            Pointer(Box::new(Generic(
                Box::new(Path(vec!["Größe"])),
                vec![Path(vec!["Zähler"])]
            )))
        ))
    );
}
