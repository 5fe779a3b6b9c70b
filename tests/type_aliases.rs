use walt_v1::syntax_elements::type_aliases::{extract_ars_type_aliases, reconstruct, ARSTypeAlias};

#[test]
fn test_single_type_alias_reconstruct() {
    let aliases = vec![ARSTypeAlias {
        name: "MyInt".to_string(),
        original_type: "i32".to_string(),
        visibility: None,
        attributes: vec![],
    }];
    let reconstructed = reconstruct(&aliases);
    assert!(reconstructed.contains("type MyInt = i32;"));
}

#[test]
fn test_multiple_type_aliases_reconstruct() {
    let aliases = vec![
        ARSTypeAlias {
            name: "MyInt".to_string(),
            original_type: "i32".to_string(),
            visibility: None,
            attributes: vec![],
        },
        ARSTypeAlias {
            name: "MyString".to_string(),
            original_type: "String".to_string(),
            visibility: Some("pub".to_string()),
            attributes: vec![],
        },
    ];
    let reconstructed = reconstruct(&aliases);
    assert!(reconstructed.contains("type MyInt = i32;"));
    assert!(reconstructed.contains("pub type MyString = String;"));
}

#[test]
fn test_extract_simple_type_alias() {
    let source = "type MyResult = Result<String, MyError>;";
    let extracted = extract_ars_type_aliases(source);
    assert_eq!(extracted.len(), 1);
    assert_eq!(extracted[0].name, "MyResult");
    assert_eq!(extracted[0].original_type, "Result<String, MyError>");
}

#[test]
fn type_alias_round_trip_keeps_parts() {
    let first = extract_ars_type_aliases("pub type Id = u64;");
    let text = reconstruct(&first);
    assert_eq!(text, "pub type Id = u64;\n\n");
    let again = extract_ars_type_aliases(&text);
    assert_eq!(again.len(), 1);
    assert_eq!(again[0].name, "Id");
    assert_eq!(again[0].original_type, "u64");
    assert_eq!(again[0].visibility.as_deref(), Some("pub"));
}

#[test]
fn generic_type_alias_keeps_parameters_in_name() {
    let extracted = extract_ars_type_aliases("type MyResult<T> = Result<T, String>;");
    assert_eq!(extracted.len(), 1);
    assert_eq!(extracted[0].name, "MyResult<T>");
    assert_eq!(extracted[0].original_type, "Result<T, String>");
}

#[test]
fn no_type_aliases_reconstruct_to_nothing() {
    assert_eq!(reconstruct(&[]), "");
}
