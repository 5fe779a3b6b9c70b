use walt_v1::syntax_elements::expressions::extract_ars_expressions;
use walt_v1::syntax_elements::functions::{extract_ars_functions, reconstruct as reconstruct_functions};
use walt_v1::syntax_elements::statements::{
    extract_ars_statements, reconstruct as reconstruct_statements, statements_from_parse,
    ARSStatement, StatementKind, PARSE_LIMIT,
};

#[test]
fn test_extract_simple_expression() {
    let source = r#"let a = 5;"#;
    let result = extract_ars_expressions(source);
    assert_eq!(result.len(), 1);
    assert_eq!(result[0].content, source);
}

#[test]
fn test_extract_simple_function_with_nesting() {
    let source = r#"
fn my_func() -> i32 {
    let x = 5;
    if x > 0 {
        return 1;
    }
    x + 1
}
        "#;
    let result = extract_ars_functions(source);
    assert_eq!(result.len(), 1);
    assert_eq!(result[0].signature, "fn my_func() -> i32");
    assert_eq!(result[0].body.len(), 3);
    assert_eq!(result[0].body[0].stmt_type.as_str(), "Local");
    assert_eq!(result[0].body[0].content, "let x = 5 ;");
    assert_eq!(result[0].body[1].stmt_type.as_str(), "Expr");
    assert_eq!(result[0].body[1].content, "if x > 0 { return 1 ; }");
    assert_eq!(result[0].body[2].stmt_type.as_str(), "Expr");
    assert_eq!(result[0].body[2].content, "x + 1");
}

#[test]
fn test_extract_simple_statement() {
    let source = "let x = 5;";
    let result = extract_ars_statements(source);
    assert_eq!(result.len(), 1);
    assert_eq!(result[0].content, "let x = 5 ;");
    assert_eq!(result[0].stmt_type.as_str(), "Local");
}

#[test]
fn test_multiple_statements() {
    let source = r#"
            let a = 1;
            println!("Hello");
            let b = a + 2;
        "#;
    let result = extract_ars_statements(source);
    assert_eq!(result.len(), 3);
    assert_eq!(result[0].stmt_type.as_str(), "Local");
    assert_eq!(result[0].content, "let a = 1 ;");
    assert_eq!(result[1].stmt_type.as_str(), "Macro");
    assert_eq!(result[1].content, "println ! (\"Hello\") ;");
    assert_eq!(result[2].stmt_type.as_str(), "Local");
    assert_eq!(result[2].content, "let b = a + 2 ;");
}

#[test]
fn test_empty_input() {
    let source = "";
    let result = extract_ars_statements(source);
    assert!(result.is_empty());
}

#[test]
fn test_unparsable_input() {
    let source = "let x = ;";
    let result = extract_ars_statements(source);
    assert_eq!(result.len(), 1);
    assert_eq!(result[0].stmt_type.as_str(), "Generic");
    assert_eq!(result[0].content, source);
}

#[test]
fn nested_item_statement_is_item() {
    let result = extract_ars_statements("fn inner() {}");
    assert_eq!(result.len(), 1);
    assert_eq!(result[0].stmt_type, StatementKind::Item);
}

#[test]
fn canonical_local_and_expression_keep_their_kind() {
    let first = extract_ars_statements("let x = 5;");
    assert_eq!(first[0].stmt_type, StatementKind::Local);
    let again = extract_ars_statements(&reconstruct_statements(&first));
    assert_eq!(again.len(), 1);
    assert_eq!(again[0].stmt_type, StatementKind::Local);
    assert_eq!(again[0].content, first[0].content);

    let first = extract_ars_statements("x + 1");
    assert_eq!(first[0].stmt_type, StatementKind::Expr);
    let again = extract_ars_statements(&reconstruct_statements(&first));
    assert_eq!(again.len(), 1);
    assert_eq!(again[0].stmt_type, StatementKind::Expr);
    assert_eq!(again[0].content, "x + 1");
}

#[test]
fn invalid_function_body_round_trips_verbatim() {
    let source = "fn broken() {\n    let x = ;\n}\n";
    let functions = extract_ars_functions(source);
    assert_eq!(functions.len(), 1);
    assert_eq!(functions[0].body.len(), 1);
    assert_eq!(functions[0].body[0].stmt_type, StatementKind::Generic);
    assert_eq!(functions[0].body[0].content, "let x = ;");
    assert_eq!(reconstruct_functions(&functions), "fn broken() {\n    let x = ;\n}\n\n");
}

#[test]
fn blank_body_without_parse_gives_nothing() {
    assert!(statements_from_parse("   \n ", None).is_empty());
    assert!(statements_from_parse("struct A;", Some(None)).is_empty());
}

#[test]
fn failed_parse_keeps_body_as_one_statement() {
    let r = statements_from_parse(" a b c ", None);
    assert_eq!(r.len(), 1);
    assert_eq!(r[0].stmt_type, StatementKind::Generic);
    assert_eq!(r[0].content, " a b c ");
}

#[test]
fn successful_parse_is_taken_as_is() {
    let parsed = vec![ARSStatement { stmt_type: StatementKind::Expr, content: "f ()".to_string() }];
    let r = statements_from_parse("f()", Some(Some(parsed)));
    assert_eq!(r.len(), 1);
    assert_eq!(r[0].stmt_type, StatementKind::Expr);
    assert_eq!(r[0].content, "f ()");
}

#[test]
fn statement_encodes_on_one_line() {
    let s = ARSStatement { stmt_type: StatementKind::Generic, content: "a\nb".to_string() };
    assert_eq!(s.encode(), "Generic,[a\\nb]");
    let s = ARSStatement { stmt_type: StatementKind::Local, content: "let x = 1 ;".to_string() };
    assert_eq!(s.encode(), "Local,[let x = 1 ;]");
}

#[test]
fn function_reconstruction_indents_statements() {
    let functions = extract_ars_functions("pub fn add(a: i32, b: i32) -> i32 {\n    a + b\n}\n");
    assert_eq!(functions.len(), 1);
    assert_eq!(functions[0].signature, "pub fn add(a: i32, b: i32) -> i32");
    assert_eq!(reconstruct_functions(&functions), "pub fn add(a: i32, b: i32) -> i32 {\n    a + b\n}\n\n");
}

#[test]
fn function_with_empty_body_is_kept() {
    let functions = extract_ars_functions("fn nothing() {}");
    assert_eq!(functions.len(), 1);
    assert_eq!(functions[0].signature, "fn nothing()");
    assert!(functions[0].body.is_empty());
    assert_eq!(reconstruct_functions(&functions), "fn nothing() {\n\n}\n\n");
}

#[test]
fn modifiers_in_any_order_stay_in_signature() {
    let functions = extract_ars_functions("pub const unsafe fn f() -> u8 { 1 }");
    assert_eq!(functions.len(), 1);
    assert_eq!(functions[0].signature, "pub const unsafe fn f() -> u8");
    assert_eq!(functions[0].body.len(), 1);
    assert_eq!(functions[0].body[0].stmt_type, StatementKind::Expr);
    assert_eq!(functions[0].body[0].content, "1");
    let functions = extract_ars_functions("async unsafe fn g() {\n    h();\n}");
    assert_eq!(functions.len(), 1);
    assert_eq!(functions[0].signature, "async unsafe fn g()");
}

#[test]
fn signature_spans_lines_and_full_return_type() {
    let source = "fn read(\n    path: &str,\n    pair: (u8, u8),\n) -> io::Result<()> {\n    Ok(())\n}\n";
    let functions = extract_ars_functions(source);
    assert_eq!(functions.len(), 1);
    assert_eq!(functions[0].signature, "fn read(\n    path: &str,\n    pair: (u8, u8),\n) -> io::Result<()>");
    assert_eq!(functions[0].body.len(), 1);
}

#[test]
fn blank_expression_input_gives_nothing() {
    assert!(extract_ars_expressions("  \n").is_empty());
}

#[test]
fn body_over_limit_is_kept_whole() {
    let body = format!("{}1{}", "(".repeat(20000), ")".repeat(20000));
    let r = extract_ars_statements(&body);
    assert_eq!(r.len(), 1);
    assert_eq!(r[0].stmt_type, StatementKind::Generic);
    assert_eq!(r[0].content, body);
    let blank = " ".repeat(PARSE_LIMIT + 1);
    assert!(extract_ars_statements(&blank).is_empty());
}

#[test]
fn deep_nesting_within_limit_parses() {
    let half = (PARSE_LIMIT - 1) / 2;
    for (open, close) in [("(", ")"), ("[", "]"), ("{", "}")] {
        let body = format!("{}1{}", open.repeat(half), close.repeat(half));
        assert!(body.chars().count() <= PARSE_LIMIT);
        assert_eq!(extract_ars_statements(&body).len(), 1);
    }
    let body = format!("{}x", "!".repeat(PARSE_LIMIT - 1));
    let r = extract_ars_statements(&body);
    assert_eq!(r.len(), 1);
    assert_eq!(r[0].stmt_type, StatementKind::Expr);
    let body = format!("{}x", "|x| ".repeat((PARSE_LIMIT - 1) / 4));
    assert_eq!(extract_ars_statements(&body).len(), 1);
}
