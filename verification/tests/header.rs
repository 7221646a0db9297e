use cpp_header_parser::parser::cpp::alias::CppAlias;
use cpp_header_parser::parser::cpp::class::CppClass;
use cpp_header_parser::parser::cpp::comment::CppComment;
use cpp_header_parser::parser::cpp::ctype::CType;
use cpp_header_parser::parser::cpp::header::{
    header_item_at, parse_define, parse_include, preprocessor_directive, CppHeader, CppHeaderItem,
};
use cpp_header_parser::parser::cpp::member::CppMember;
use cpp_header_parser::parser::cpp::member::CppMemberModifier::{Const, Static};
use cpp_header_parser::parser::cpp::method::CppFunction;
use cpp_header_parser::parser::cpp::template::parse_template;
use cpp_header_parser::parser::generic::class::{CppParentClass, InheritanceVisibility};
use cpp_header_parser::parser::generic::method::CppStorageQualifier::Virtual;
use cpp_header_parser::parser::generic::method::PostParamQualifier::Override;
use cpp_header_parser::text::{Expected, ParseError, Source};
use cpp_header_parser::types::Parsable;

#[test]
fn test_relative_include() {
    let input = "#include \"CoreMinimal.h\"";
    let result = parse_include(input);

    assert_eq!(result, Ok(("", "CoreMinimal.h")));
}

#[test]
fn test_parse_pragma() {
    let input = "#pragma once";
    let result = preprocessor_directive(input);

    assert_eq!(result, Ok(("", "pragma once")));
}

#[test]
fn test_simple_header() {
    let input = r#"#pragma once
            #include "CoreMinimal.h"
            #include "Modules/ModuleManager.h"

            const static int helloCount = 0;

            struct Empty{};

            // Say hello to everyone
            void sayHello(){}

            class FCommonModule : public IModuleInterface
            {
            public:
                virtual void StartupModule() override;
                virtual void ShutdownModule() override;
            };
            "#;

    let result = CppHeader::parse(input);
    assert_eq!(
        result,
        Ok((
            "",
            CppHeader {
                includes: vec!["CoreMinimal.h", "Modules/ModuleManager.h"],

                classes: vec![
                    CppClass {
                        name: "Empty",
                        ..Default::default()
                    },
                    CppClass {
                        name: "FCommonModule",
                        parents: vec![CppParentClass {
                            name: CType::Path(vec!["IModuleInterface"]),
                            visibility: InheritanceVisibility::Public
                        }],
                        methods: vec![
                            (
                                InheritanceVisibility::Public,
                                CppFunction {
                                    name: "StartupModule",
                                    storage_qualifiers: vec![Virtual],
                                    post_param_qualifiers: vec![Override],
                                    ..Default::default()
                                }
                            ),
                            (
                                InheritanceVisibility::Public,
                                CppFunction {
                                    name: "ShutdownModule",
                                    storage_qualifiers: vec![Virtual],
                                    post_param_qualifiers: vec![Override],
                                    ..Default::default()
                                }
                            )
                        ],

                        ..Default::default()
                    }
                ],
                comments: vec![CppComment {
                    comment: "Say hello to everyone".to_string()
                }],
                functions: vec![CppFunction {
                    name: "sayHello",
                    ..Default::default()
                }],
                declarations: vec![CppMember {
                    name: "helloCount",
                    ctype: CType::Path(vec!["int"]),
                    default_value: Some(CType::Path(vec!["0"])),
                    modifiers: vec![Const, Static],
                    ..Default::default()
                }],
                ..CppHeader::default()
            }
        ))
    );
}

#[test]
fn parse_alias_with_template() {
    let input = r#"template<class T>
                            using Vec = vector<T, Alloc<T>>;"#;
    let result = CppAlias::parse(input);
    assert_eq!(
        result,
        Ok((
            "",
            CppAlias {
                name: "Vec",
                ctype: CType::Generic(
                    Box::from(CType::Path(vec!["vector"])),
                    vec![
                        CType::Path(vec!["T"]),
                        CType::Generic(
                            Box::from(CType::Path(vec!["Alloc"])),
                            vec![CType::Path(vec!["T"])]
                        )
                    ]
                )
            }
        ))
    )
}

#[test]
fn parse_alias_with_namespace() {
    let input = r#"using myNumber = path::subpath::value;"#;
    let result = CppAlias::parse(input);
    assert_eq!(
        result,
        Ok((
            "",
            CppAlias {
                name: "myNumber",
                ctype: CType::Path(vec!["path", "subpath", "value"]),
            }
        ))
    )
}

#[test]
fn alias_failures() {
    assert_eq!(
        CppAlias::parse("typedef int x;"),
        Err(ParseError {
            rest: "typedef int x;",
            expected: Expected::Word,
            scope: vec![],
        })
    );
    assert_eq!(
        CppAlias::parse("using= int;"),
        Err(ParseError {
            rest: "= int;",
            expected: Expected::Space,
            scope: vec![],
        })
    );
    assert_eq!(
        CppAlias::parse("using x int;"),
        Err(ParseError {
            rest: "int;",
            expected: Expected::Char('='),
            scope: vec![],
        })
    );
    assert_eq!(
        CppAlias::parse("using x = int"),
        Err(ParseError {
            rest: "",
            expected: Expected::Char(';'),
            scope: vec![],
        })
    );
}

#[test]
fn includes_in_both_forms() {
    assert_eq!(parse_include("  #include <vector>\nx"), Ok(("\nx", "vector")));
    assert_eq!(parse_include("#include\"a/b.h\" "), Ok((" ", "a/b.h")));
    assert_eq!(
        parse_include("#include <vector"),
        Err(ParseError {
            rest: "vector",
            expected: Expected::Closing,
            scope: vec![],
        })
    );
    assert_eq!(
        parse_include("#include vector"),
        Err(ParseError {
            rest: "vector",
            expected: Expected::Char('<'),
            scope: vec![],
        })
    );
    assert_eq!(
        parse_include("#pragma once"),
        Err(ParseError {
            rest: "#pragma once",
            expected: Expected::Word,
            scope: vec![],
        })
    );
}

#[test]
fn definitions_and_directives() {
    assert_eq!(parse_define("#define A 1\nrest"), Ok(("\nrest", "A 1")));
    assert_eq!(
        parse_define("#define A 1"),
        Err(ParseError {
            rest: "A 1",
            expected: Expected::Closing,
            scope: vec![],
        })
    );
    assert_eq!(
        parse_define("#defineA\n"),
        Err(ParseError {
            rest: "A\n",
            expected: Expected::Space,
            scope: vec![],
        })
    );
    assert_eq!(preprocessor_directive("#if X\n#endif"), Ok(("\n#endif", "if X")));
    assert_eq!(
        preprocessor_directive("pragma"),
        Err(ParseError {
            rest: "pragma",
            expected: Expected::Word,
            scope: vec![],
        })
    );
}

#[test]
fn template_headers() {
    assert_eq!(parse_template("template<> x"), Ok(("x", vec![])));
    assert_eq!(
        parse_template(" template <typename T,class U = int> x"),
        Ok(("x", vec![CType::Path(vec!["T"]), CType::Path(vec!["U"])]))
    );
    assert_eq!(
        parse_template("template x"),
        Err(ParseError {
            rest: "x",
            expected: Expected::Char('<'),
            scope: vec![],
        })
    );
    assert_eq!(
        parse_template("template<typename T"),
        Err(ParseError {
            rest: "",
            expected: Expected::Char('>'),
            scope: vec![],
        })
    );
    assert_eq!(
        parse_template("class X"),
        Err(ParseError {
            rest: "class X",
            expected: Expected::Word,
            scope: vec![],
        })
    );
}

#[test]
fn header_with_every_kind_of_item() {
    let input = "\u{feff}// top\n#include <a>\n#define X 1\n#ifdef Y\nusing T = int;\nnamespace n {}\nint v;\nvoid f() {}\nclass C;\n";
    let (rest, header) = CppHeader::parse(input).unwrap();
    assert_eq!(rest, "");
    assert_eq!(header.comments, vec![CppComment { comment: "top".to_string() }]);
    assert_eq!(header.includes, vec!["a"]);
    assert_eq!(header.aliases.len(), 1);
    assert_eq!(header.aliases[0].name, "T");
    assert_eq!(header.namespaces.len(), 1);
    assert_eq!(header.namespaces[0].name, "n");
    assert_eq!(header.declarations.len(), 1);
    assert_eq!(header.declarations[0].name, "v");
    assert_eq!(header.functions.len(), 1);
    assert_eq!(header.functions[0].name, "f");
    assert_eq!(header.classes.len(), 1);
    assert_eq!(header.classes[0].name, "C");
}

#[test]
fn a_semicolon_alone_is_no_item_of_a_header() {
    assert_eq!(
        CppHeader::parse("void f();\nclass C;\n"),
        Err(ParseError {
            rest: ";\nclass C;\n",
            expected: Expected::Identifier,
            scope: vec![],
        })
    );
}

#[test]
fn empty_header_and_blank_header() {
    assert_eq!(CppHeader::parse(""), Ok(("", CppHeader::default())));
    assert_eq!(CppHeader::parse(" \n\t "), Ok(("", CppHeader::default())));
}

#[test]
fn header_fails_on_what_is_no_item() {
    assert_eq!(
        CppHeader::parse("int x;\n@@@\n"),
        Err(ParseError {
            rest: "@@@\n",
            expected: Expected::Identifier,
            scope: vec![],
        })
    );
}

#[test]
fn a_failure_in_a_header_names_the_bodies_around_it() {
    let input = "#pragma once\nint v;\nnamespace a {\n  class B {\n    int x;\n    ???\n  };\n}\n";
    assert_eq!(
        CppHeader::parse(input),
        Err(ParseError {
            rest: "???\n  };\n}\n",
            expected: Expected::Char('}'),
            scope: vec!["a", "B"],
        })
    );
    assert_eq!(
        CppHeader::parse("class B {\n  int x;\n  ???\n};\n"),
        Err(ParseError {
            rest: "???\n};\n",
            expected: Expected::Char('}'),
            scope: vec!["B"],
        })
    );
}

#[test]
fn directives_and_definitions_are_read_with_their_text() {
    let src = Source::new("  #pragma once\n#define LIMIT 10\n\u{feff}#include <a>");
    assert_eq!(
        header_item_at(&src, 0),
        Ok((CppHeaderItem::Preprocessor("pragma once"), 14))
    );
    assert_eq!(
        header_item_at(&src, 14),
        Ok((CppHeaderItem::Define("LIMIT 10"), 31))
    );
    assert_eq!(header_item_at(&src, 31), Ok((CppHeaderItem::Ignore, 33)));
    assert_eq!(header_item_at(&src, 33), Ok((CppHeaderItem::Include("a"), 45)));
}
