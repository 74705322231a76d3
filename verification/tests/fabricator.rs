use yewoh::fabricator::document::{
    Application, Document, Expression, Import, Number, ParseError, Path, Register, Visibility,
};
use yewoh::fabricator::lists::{FieldList, IndexList};
use yewoh::fabricator::string;

fn indices(values: &[usize]) -> IndexList {
    let mut list = IndexList::new();
    for v in values {
        list.push(*v);
    }
    list
}

fn fields<'a>(values: &[(&'a str, usize)]) -> FieldList<'a> {
    let mut list = FieldList::new();
    for (name, index) in values {
        list.push(name, *index);
    }
    list
}

#[test]
fn test_build() {
    let doc = Document {
        registers: vec![
            Register {
                name: Some("var"),
                visibility: Visibility::In,
                variable_type: Some(Path::from_segments(&["bevy", "Transform"])),
                optional: true,
                expression: Some(Expression::Import(Import::Path(Path::single("test2")))),
            },
            Register::from_expression(Expression::Import(Import::Path(Path::single("test")))),
            Register::from_expression(Expression::Import(Import::File("myfile.fab"))),
            Register::from_expression(Expression::Tuple(None, indices(&[0, 1, 2]))),
            Register::from_expression(Expression::Tuple(Some(Path::single("MyTuple")), indices(&[0, 1, 2]))),
            Register::from_expression(Expression::Struct(None, fields(&[("field1", 0), ("field2", 1)]))),
            Register::from_expression(Expression::Struct(Some(Path::single("MyStruct")), fields(&[("field1", 0), ("field2", 1)]))),
        ],
        applications: vec![Application { entity: 0, expression: 0 }],
    };

    println!("{}", doc.to_debug_string());
}

#[test]
fn test_parse() {
    let doc = Document::parse("
            import foo::{baz::bar, boo::{ham, green as white}};
            import \"jeff.fab\" as mellow;
            in param1: f32 = 5.0;
            in param2: f32? = 0.4;
            out result0: f32;
            local myLocal_: Entity?;
            local test = MyTuple(1, 2, 3.4);
            ;
            $ <- MyComponent {
                field1: 1.0,
                field2: myLocal_,
            };
        ").unwrap();
    let formatted = doc.to_debug_string();
    assert_eq!(formatted, [
    "Document {\n",
    "  %0 local bar = foo::baz::bar;\n",
    "  %1 local ham = foo::boo::ham;\n",
    "  %2 local white = foo::boo::green;\n",
    "  %3 local mellow = import \"jeff.fab\";\n",
    "  %4 in param1: f32 = 5.0;\n",
    "  %5 in param2: f32? = 0.4;\n",
    "  %6 out result0: f32;\n",
    "  %7 local myLocal_: Entity?;\n",
    "  %8 = 1;\n",
    "  %9 = 2;\n",
    "  %10 = 3.4;\n",
    "  %11 local test: MyTuple = MyTuple(%8, %9, %10);\n",
    "  %12 = $;\n",
    "  %13 = 1.0;\n",
    "  %14 = myLocal_;\n",
    "  %15: MyComponent = MyComponent{field1: %13, field2: %14};\n",
    "  %12 <- %15;\n",
    "}",
    ].concat());
}

fn parse_error(input: &str) -> ParseError<&str> {
    match Document::parse(input) {
        Ok(_) => panic!("expected an error for {input:?}"),
        Err(e) => e,
    }
}

#[test]
fn parse_errors_name_the_rest_of_the_input() {
    assert!(matches!(parse_error("1 2"), ParseError::ExpectedSemiColon("2")));
    assert!(matches!(parse_error("(1"), ParseError::UnclosedTuple("")));
    assert!(matches!(parse_error("[1, 2"), ParseError::UnclosedList("")));
    assert!(matches!(parse_error("{a 1}"), ParseError::ExpectedColon("1}")));
    assert!(matches!(parse_error("{a: 1"), ParseError::UnclosedStruct("")));
    assert!(matches!(parse_error("{1}"), ParseError::ExpectedIdentifier("1}")));
    assert!(matches!(parse_error("local ;"), ParseError::ExpectedIdentifier(";")));
    assert!(matches!(parse_error("import \"x\" y"), ParseError::ExpectedKeyword { at: "y", keyword: "as" }));
    assert!(matches!(parse_error("in x: 5"), ParseError::ExpectedPath("5")));
    assert!(matches!(parse_error("import a::5"), ParseError::ExpectedOpenBrace("5")));
    assert!(matches!(parse_error("import a::{5}"), ParseError::ExpectedImportPath("5}")));
    assert!(matches!(parse_error("import a::{b c}"), ParseError::ExpectedImportPath("c}")));
    assert!(matches!(parse_error("0x"), ParseError::ExpectedIntRadix("", 16)));
    assert!(matches!(parse_error("-0bz"), ParseError::ExpectedIntRadix("z", 2)));
    assert!(matches!(parse_error("= 1"), ParseError::ExpectedExpression("= 1")));
    assert!(matches!(parse_error("a <- ;"), ParseError::ExpectedExpression(";")));
    assert!(matches!(parse_error("\"\""), ParseError::StringError(string::ParseError::EmptyString("\"\""))));
    assert!(matches!(parse_error("x = \"abc"), ParseError::ExpectedSemiColon("= \"abc")));
    assert!(matches!(parse_error("(\"abc"), ParseError::StringError(string::ParseError::UnclosedString("\"abc"))));
}

fn single_number(input: &str) -> String {
    let doc = Document::parse(input).unwrap();
    assert_eq!(doc.registers.len(), 1);
    match &doc.registers[0].expression {
        Some(Expression::Number(Number::I64(v))) => format!("i64 {v}"),
        Some(Expression::Number(Number::U64(v))) => format!("u64 {v}"),
        Some(Expression::Number(Number::F64(t))) => format!("f64 {t}"),
        _ => panic!("not a number"),
    }
}

#[test]
fn numbers_by_radix_and_sign() {
    assert_eq!(single_number("0x10"), "i64 16");
    assert_eq!(single_number("-0x10"), "i64 -16");
    assert_eq!(single_number("+0o17"), "i64 15");
    assert_eq!(single_number("0b1_01"), "i64 5");
    assert_eq!(single_number("0xFFFF_FFFF_FFFF_FFFF"), "u64 18446744073709551615");
    assert_eq!(single_number("0x7FFFFFFFFFFFFFFF"), "i64 9223372036854775807");
    assert_eq!(single_number("1_000"), "f64 1_000");
    assert_eq!(single_number("2.5e-3"), "f64 2.5e-3");
    assert_eq!(single_number(".5"), "f64 .5");
    assert_eq!(single_number("7."), "f64 7.");
}

#[test]
fn comments_and_empty_statements_are_skipped() {
    let doc = Document::parse("// first\n1; /* two\n lines */ ;; 2 // last").unwrap();
    assert_eq!(doc.to_debug_string(), "Document {\n  %0 = 1;\n  %1 = 2;\n}");
    let doc = Document::parse("1 /* never closed").unwrap();
    assert_eq!(doc.registers.len(), 1);
}

#[test]
fn struct_shorthand_fields_refer_to_registers_by_name() {
    let doc = Document::parse("P { a, b: 2 }").unwrap();
    assert_eq!(
        doc.to_debug_string(),
        "Document {\n  %0 = a;\n  %1 = 2;\n  %2: P = P{a: %0, b: %1};\n}"
    );
}

#[test]
fn lists_and_nested_tuples() {
    let doc = Document::parse("[1, (2, 3),]").unwrap();
    assert_eq!(
        doc.to_debug_string(),
        "Document {\n  %0 = 1;\n  %1 = 2;\n  %2 = 3;\n  %3 = (%1, %2);\n  %4 = [%0, %3];\n}"
    );
}

#[test]
fn dependencies_are_the_unescaped_file_names() {
    let doc = Document::parse("import \"a\\nb\" as x; import c::d; import \"e\\\"f\" as y").unwrap();
    assert_eq!(doc.dependencies(), vec!["a\nb".to_string(), "e\"f".to_string()]);
}

#[test]
fn dot_graph_of_a_document() {
    let doc = Document::parse("(1, 2) <- x").unwrap();
    assert_eq!(
        doc.to_dot(),
        [
            "digraph Document {\n",
            "  v0 [shape=box,label=\"%0 = 1\"];\n",
            "  v1 [shape=box,label=\"%1 = 2\"];\n",
            "  v2 [shape=box,label=\"%2 = (%0, %1)\"];\n",
            "  v0 -> v2;\n",
            "  v1 -> v2;\n",
            "  v3 [shape=box,label=\"%3 = x\"];\n",
            "  a0 [label=apply]\n",
            "  a0 -> v2\n",
            "  v3 -> a0\n",
            "}\n",
        ].concat()
    );
}

#[test]
fn string_literals_are_recognized_and_unescaped() {
    let (rest, literal) = string::recognize_string("\"ab\\\"c\" rest").unwrap().unwrap();
    assert_eq!(rest, " rest");
    assert_eq!(literal, "\"ab\\\"c\"");
    let (rest, text) = string::parse_string("\"a\\nb\\rc\\\\\"").unwrap().unwrap();
    assert_eq!(rest, "");
    assert_eq!(text, "a\nb\rc\\");
    assert!(string::recognize_string("plain").unwrap().is_none());
    assert!(matches!(string::parse_string("\"\""), Err(string::ParseError::EmptyString("\"\""))));
    assert!(matches!(string::parse_string("\"ab\\"), Err(string::ParseError::UnclosedString("\"ab\\"))));
}

#[test]
fn escaped_strings_read_back() {
    let original = "say \"hi\"\n\\ done\r";
    let escaped = string::escape_string(original);
    assert_eq!(escaped, "\"say \\\"hi\\\"\\n\\\\ done\\r\"");
    let (rest, text) = string::parse_string(&escaped).unwrap().unwrap();
    assert_eq!(rest, "");
    assert_eq!(text, original);
}

#[test]
fn error_positions_can_be_mapped() {
    let e: ParseError<usize> = ParseError::ExpectedColon(3);
    assert!(matches!(e.map_position(|p| p + 1), ParseError::ExpectedColon(4)));
    let e: ParseError<usize> = ParseError::ExpectedKeyword { at: 2, keyword: "as" };
    assert!(matches!(e.map_position(|p| p * 10), ParseError::ExpectedKeyword { at: 20, keyword: "as" }));
    let s: string::ParseError<usize> = string::ParseError::UnclosedString(5);
    assert!(matches!(s.map_position(|p| p - 5), string::ParseError::UnclosedString(0)));
}

#[test]
fn paths_join_and_print() {
    let a = Path::from_segments(&["bevy", "prelude"]);
    let b = Path::single("Transform");
    let joined = a.join(&b);
    assert_eq!(joined.len(), 3);
    assert!(!joined.is_empty());
    assert!(Path::empty().is_empty());
    assert_eq!(joined.to_debug_string(), "bevy::prelude::Transform");
    let e = Expression::Struct(Some(joined.clone()), FieldList::new());
    assert_eq!(e.type_path().unwrap().to_debug_string(), "bevy::prelude::Transform");
    assert!(Expression::Path(b).type_path().is_none());
}

#[test]
fn visibility_keywords() {
    assert_eq!(Visibility::In.as_keyword(), "in");
    assert_eq!(Visibility::Out.as_keyword(), "out");
    assert_eq!(Visibility::Local.as_keyword(), "local");
    assert_eq!(Visibility::default(), Visibility::Local);
}

#[test]
fn push_register_returns_the_index() {
    let mut doc = Document::default();
    assert_eq!(doc.push_register(Register::default()), 0);
    assert_eq!(doc.push_register(Register::from_expression(Expression::String("\"s\""))), 1);
    assert_eq!(doc.to_debug_string(), "Document {\n  %0;\n  %1 = \"s\";\n}");
}

#[test]
fn parse_errors_read_as_text_at_file_positions() {
    let src = "a;\n  1 2";
    let e = Document::parse(src).err().unwrap();
    let located = e.map_position(|rest| {
        yewoh::source::FilePosition::from_file_and_str("doc.fab".to_string(), src, rest)
    });
    assert_eq!(located.to_string(), "doc.fab:2:4: expected semi-colon");
    let e: ParseError<yewoh::source::FilePosition> = ParseError::ExpectedIntRadix(
        yewoh::source::FilePosition { file: "f".to_string(), line: 1, offset: 0 },
        16,
    );
    assert_eq!(e.to_string(), "f:1:0: expected integer (with radix 16)");
    let e: ParseError<yewoh::source::FilePosition> = ParseError::ExpectedKeyword {
        at: yewoh::source::FilePosition { file: "f".to_string(), line: 3, offset: 2 },
        keyword: "as",
    };
    assert_eq!(e.to_string(), "f:3:2: expected as keyword");
    let s = string::ParseError::UnclosedString(yewoh::source::FilePosition { file: "g".to_string(), line: 1, offset: 1 });
    assert_eq!(s.to_string(), "g:1:1: unclosed string literal");
}

#[test]
fn names_bind_registers_inputs_aliases_and_files() {
    let doc = Document::parse(
        "import foo::bar; import bar::baz as q; in x: T; in y: T = 1; in w: T?; local z = 2; import \"f\\\"g\" as h",
    )
    .unwrap();
    let names = doc.resolve_names().unwrap();
    let locals: Vec<(&str, usize)> = names.locals.clone();
    assert_eq!(locals, vec![("$", 7), ("bar", 0), ("q", 1), ("x", 2), ("y", 3), ("w", 4), ("z", 5), ("h", 6)]);
    assert_eq!(names.inputs, vec![("x", 2, true), ("y", 3, true), ("w", 4, false)]);
    assert!(names.requires_an_input);
    let aliases: Vec<(&str, String)> = names.aliases.iter().map(|(n, p)| (*n, p.to_debug_string())).collect();
    assert_eq!(aliases, vec![("bar", "foo::bar".to_string()), ("q", "foo::bar::baz".to_string())]);
    assert_eq!(names.file_imports, vec![("h", "f\"g".to_string())]);
}

#[test]
fn optional_or_defaulted_inputs_are_not_required() {
    let doc = Document::parse("in a: T?; in b: T = 3").unwrap();
    assert!(!doc.resolve_names().unwrap().requires_an_input);
}

#[test]
fn a_name_bound_twice_is_an_error() {
    let doc = Document::parse("in a: T; local a = 1").unwrap();
    let e = doc.resolve_names().err().unwrap();
    assert_eq!((e.name, e.index, e.last_index), ("a", 1, 0));
    assert_eq!(e.to_string(), "duplicate variable name: 'a' (index 1 and 0)");
    let doc = Document::parse("local $ = 1").unwrap();
    let e = doc.resolve_names().err().unwrap();
    assert_eq!((e.name, e.index, e.last_index), ("$", 0, 1));
}
