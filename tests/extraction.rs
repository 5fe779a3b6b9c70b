use walt_v1::decoder::decode;
use walt_v1::encoder::encode;
use walt_v1::syntax_elements::attributes::{
    encode_rust, reconstruct as reconstruct_attributes, AttributeKind,
};
use walt_v1::syntax_elements::constants::{extract_ars_consts, reconstruct as reconstruct_consts};
use walt_v1::syntax_elements::enums::{extract_ars_enums, reconstruct as reconstruct_enums};
use walt_v1::pattern::Found;
use walt_v1::syntax_elements::impl_blocks::{
    extract_ars_impls, plain_impl_from_match, reconstruct as reconstruct_impls, trait_impl_from_match,
};
use walt_v1::syntax_elements::macros::{
    extract_ars_macros, macro_from_match, reconstruct as reconstruct_macros, MacroKind,
};
use walt_v1::syntax_elements::modules::{
    extract_ars_modules, module_from_match, reconstruct as reconstruct_modules,
};
use walt_v1::syntax_elements::statics::{extract_ars_statics, reconstruct as reconstruct_statics};
use walt_v1::syntax_elements::structs::{
    extract_ars_structs, reconstruct as reconstruct_structs, struct_from_match,
};
use walt_v1::syntax_elements::traits::{extract_ars_traits, reconstruct as reconstruct_traits};
use walt_v1::syntax_elements::use_statements::{
    extern_from_match, extract_ars_uses, reconstruct as reconstruct_uses, use_from_match,
    ImportKind,
};
use walt_v1::syntax_elements::{extract as extract_lines, reconstruct as reconstruct_lines};
use walt_v1::balancer::matching_close;
use walt_v1::text::{chars_of, trimmed};

fn lines_of(text: &str) -> Vec<String> {
    text.lines().map(|l| l.to_string()).collect()
}

#[test]
fn record_struct_point() {
    let structs = extract_ars_structs("struct Point { x: i32, y: i32 }");
    assert_eq!(structs.len(), 1);
    assert_eq!(structs[0].name, "Point");
    assert!(!structs[0].is_unit);
    assert!(!structs[0].is_tuple);
    assert_eq!(structs[0].fields, vec!["x: i32".to_string(), "y: i32".to_string()]);
    assert_eq!(reconstruct_structs(&structs), "struct Point {\n    x: i32,\n    y: i32,\n}\n\n");
}

#[test]
fn tuple_and_unit_structs() {
    let source = "#[derive(Debug, Clone)]\npub struct Pair(i32, String);\nstruct Marker;";
    let structs = extract_ars_structs(source);
    assert_eq!(structs.len(), 2);
    assert_eq!(structs[0].name, "Pair");
    assert!(structs[0].is_tuple);
    assert_eq!(structs[0].visibility.as_deref(), Some("pub"));
    assert_eq!(structs[0].attributes, vec!["#[derive(Debug, Clone)]".to_string()]);
    assert_eq!(structs[0].fields, vec!["i32".to_string(), "String".to_string()]);
    assert!(structs[1].is_unit);
    assert!(structs[1].fields.is_empty());
    assert_eq!(
        reconstruct_structs(&structs),
        "#[derive(Debug, Clone)]\npub struct Pair(i32, String);\n\nstruct Marker;\n\n"
    );
}

#[test]
fn generic_struct_keeps_generics() {
    let structs = extract_ars_structs("struct Holder<T> {\n    pub values: Vec<T>,\n}");
    assert_eq!(structs.len(), 1);
    assert_eq!(structs[0].generics.as_deref(), Some("<T>"));
    assert_eq!(structs[0].fields, vec!["pub values: Vec<T>".to_string()]);
}

#[test]
fn struct_without_closing_brace_is_dropped() {
    assert!(extract_ars_structs("struct Open { a: u8, ").is_empty());
    assert!(extract_ars_structs("struct S { x: i32").is_empty());
    let structs = extract_ars_structs("struct Empty {}");
    assert_eq!(structs.len(), 1);
    assert!(structs[0].fields.is_empty());
}

#[test]
fn unclosed_enum_impl_and_module_are_dropped() {
    assert!(extract_ars_enums("enum E { A, B").is_empty());
    assert!(extract_ars_impls("impl Point { fn a() {}").is_empty());
    assert!(extract_ars_modules("mod m { fn f() {").is_empty());
    assert!(extract_ars_traits("trait T { fn a(&self);").is_empty());
    let modules = extract_ars_modules("mod m {}
mod n;");
    assert_eq!(modules.len(), 2);
    assert_eq!(modules[0].body.as_deref(), Some(""));
    assert!(!modules[1].inline);
}

#[test]
fn enum_variants_split_on_commas() {
    let enums = extract_ars_enums("pub enum Color { Red, Green(u8), Blue }");
    assert_eq!(enums.len(), 1);
    assert_eq!(enums[0].name, "Color");
    assert_eq!(enums[0].visibility.as_deref(), Some("pub"));
    assert_eq!(
        enums[0].variants,
        vec!["Red".to_string(), "Green(u8)".to_string(), "Blue".to_string()]
    );
    assert_eq!(reconstruct_enums(&enums), "pub enum Color { Red, Green(u8), Blue }\n\n");
}

#[test]
fn trait_items_split_by_line() {
    let traits = extract_ars_traits("trait Shape {\n    fn area(&self) -> u32;\n\n    fn name(&self) -> String;\n}");
    assert_eq!(traits.len(), 1);
    assert_eq!(traits[0].name, "Shape");
    assert_eq!(
        traits[0].items,
        vec!["fn area(&self) -> u32;".to_string(), "fn name(&self) -> String;".to_string()]
    );
    assert_eq!(
        reconstruct_traits(&traits),
        "trait Shape {\n    fn area(&self) -> u32;\n    fn name(&self) -> String;\n}\n\n"
    );
}

#[test]
fn generic_trait_keeps_generics() {
    let traits = extract_ars_traits("pub unsafe trait Processor<T> {\n    fn process(&self, value: T) -> T;\n}");
    assert_eq!(traits.len(), 1);
    assert_eq!(traits[0].name, "Processor");
    assert_eq!(traits[0].generics.as_deref(), Some("<T>"));
    assert_eq!(traits[0].visibility.as_deref(), Some("pub"));
}

#[test]
fn trait_impl_and_plain_impl_counted_once() {
    let source = "impl Display for Point {\n    fn fmt(&self) {}\n}\nimpl Point {\n    fn new() -> Self { Point }\n}\n";
    let impls = extract_ars_impls(source);
    assert_eq!(impls.len(), 2);
    assert_eq!(impls[0].trait_name.as_deref(), Some("Display"));
    assert_eq!(impls[0].target, "Point");
    assert_eq!(impls[0].items, vec!["fn fmt(&self) {}".to_string()]);
    assert_eq!(impls[1].trait_name, None);
    assert_eq!(impls[1].target, "Point");
    assert_eq!(impls[1].items, vec!["fn new() -> Self { Point }".to_string()]);
    assert_eq!(
        reconstruct_impls(&impls),
        "impl Display for Point {\n    fn fmt(&self) {}\n}\n\nimpl Point {\n    fn new() -> Self { Point }\n}\n\n"
    );
}

#[test]
fn plain_impl_first_still_one_of_each_form() {
    let source = "impl Point {\n    fn new() -> Self { Point }\n}\nimpl Display for Point {\n    fn fmt(&self) {}\n}\n";
    let impls = extract_ars_impls(source);
    let with_trait: Vec<_> = impls.iter().filter(|i| i.trait_name.is_some()).collect();
    let plain: Vec<_> = impls.iter().filter(|i| i.trait_name.is_none()).collect();
    assert_eq!(with_trait.len(), 1);
    assert_eq!(plain.len(), 1);
    assert_eq!(with_trait[0].trait_name.as_deref(), Some("Display"));
    assert_eq!(with_trait[0].target, "Point");
    assert_eq!(plain[0].target, "Point");
}

#[test]
fn for_inside_a_name_is_not_a_trait_impl() {
    let impls = extract_ars_impls("impl Transform {\n    fn apply(&self) {}\n}\n");
    assert_eq!(impls.len(), 1);
    assert_eq!(impls[0].trait_name, None);
    assert_eq!(impls[0].target, "Transform");
}

#[test]
fn function_named_like_impl_is_not_an_impl() {
    assert!(extract_ars_impls("fn simplify(x: u8) {\n    x;\n}\n").is_empty());
}

#[test]
fn constant_and_static_need_a_type() {
    assert!(extract_ars_consts("const X: = 5;").is_empty());
    assert!(extract_ars_statics("static Y: = 5;").is_empty());
}

#[test]
fn generic_impl_keeps_generics() {
    let impls = extract_ars_impls("impl<T: Clone> Holder<T> {\n    fn get(&self) {}\n}");
    assert_eq!(impls.len(), 1);
    assert_eq!(impls[0].generics.as_deref(), Some("<T: Clone>"));
    assert_eq!(impls[0].target, "Holder<T>");
}

#[test]
fn inline_and_file_modules() {
    let modules = extract_ars_modules("pub mod inner {\n    fn f() {}\n}\nmod outer;");
    assert_eq!(modules.len(), 2);
    assert_eq!(modules[0].name, "inner");
    assert!(modules[0].inline);
    assert_eq!(modules[0].visibility.as_deref(), Some("pub"));
    assert_eq!(modules[0].body.as_deref(), Some("fn f() {}"));
    assert!(!modules[1].inline);
    assert_eq!(modules[1].body, None);
    assert_eq!(
        reconstruct_modules(&modules),
        "pub mod inner {\nfn f() {}\n}\n\nmod outer;\n"
    );
}

#[test]
fn macro_body_kept_whole() {
    let macros = extract_ars_macros("macro_rules! square {\n    ($x:expr) => { $x * $x };\n}");
    assert_eq!(macros.len(), 1);
    assert_eq!(macros[0].name, "square");
    assert_eq!(macros[0].body, "($x:expr) => { $x * $x };");
    assert_eq!(
        reconstruct_macros(&macros),
        "macro_rules! square { ($x:expr) => { $x * $x }; }\n"
    );
}

#[test]
fn macro_with_open_body_is_dropped() {
    let macros = extract_ars_macros("macro_rules! empty {}");
    assert_eq!(macros.len(), 1);
    assert_eq!(macros[0].body, "");
    assert!(extract_ars_macros("macro_rules! open { (a) => {").is_empty());
}

#[test]
fn imports_of_each_form() {
    let source = "use std::collections::HashMap;\nuse std::io::*;\nuse foo::Bar as Baz;\nextern crate serde;";
    let uses = extract_ars_uses(source);
    assert_eq!(uses.len(), 4);
    assert_eq!(uses[0].stmt_type, ImportKind::Use);
    assert_eq!(uses[0].path, "std::collections::HashMap");
    assert!(!uses[0].is_glob);
    assert_eq!(uses[0].alias, None);
    assert!(uses[1].is_glob);
    assert_eq!(uses[2].alias.as_deref(), Some("Baz"));
    assert_eq!(uses[3].stmt_type, ImportKind::Extern);
    assert_eq!(uses[3].path, "serde");
    assert_eq!(
        reconstruct_uses(&uses),
        "use std::collections::HashMap;\nuse std::io::*;\nuse foo::Bar as Baz;\nextern crate serde;\n\n"
    );
}

#[test]
fn constant_round_trip_keeps_parts() {
    let first = extract_ars_consts("pub const MAX: usize = 10;");
    assert_eq!(first.len(), 1);
    let text = reconstruct_consts(&first);
    assert_eq!(text, "pub const MAX: usize = 10;\n\n");
    let again = extract_ars_consts(&text);
    assert_eq!(again.len(), 1);
    assert_eq!(again[0].name, "MAX");
    assert_eq!(again[0].ty, "usize");
    assert_eq!(again[0].value, "10");
    assert_eq!(again[0].visibility.as_deref(), Some("pub"));
}

#[test]
fn static_round_trip_keeps_parts() {
    let first = extract_ars_statics("#[no_mangle]\nstatic mut COUNTER: u32 = 0;");
    assert_eq!(first.len(), 1);
    assert!(first[0].mutable);
    assert_eq!(first[0].attributes, vec!["#[no_mangle]".to_string()]);
    let text = reconstruct_statics(&first);
    assert_eq!(text, "#[no_mangle]\nstatic mut COUNTER: u32 = 0;\n\n");
    let again = extract_ars_statics(&text);
    assert_eq!(again.len(), 1);
    assert_eq!(again[0].name, "COUNTER");
    assert_eq!(again[0].ty, "u32");
    assert_eq!(again[0].value, "0");
    assert!(again[0].mutable);
}

#[test]
fn outer_and_inner_attributes() {
    let attrs = encode_rust("#![allow(unused)]\n#[derive(Debug)]\nstruct A;\n#![deny(warnings)]");
    assert_eq!(attrs.len(), 3);
    assert_eq!(attrs[0].attr_type, AttributeKind::Inner);
    assert_eq!(attrs[0].content, "allow(unused)");
    assert_eq!(attrs[1].attr_type, AttributeKind::Outer);
    assert_eq!(attrs[1].content, "derive(Debug)");
    assert_eq!(attrs[2].attr_type, AttributeKind::Inner);
    assert_eq!(attrs[2].content, "deny(warnings)");
    assert_eq!(reconstruct_attributes(&attrs), "#![allow(unused)]\n#![deny(warnings)]\n");
}

#[test]
fn imports_keep_source_order() {
    let uses = extract_ars_uses("extern crate alloc;\nuse a::b;\nextern crate core;\n");
    assert_eq!(uses.len(), 3);
    assert_eq!(uses[0].stmt_type, ImportKind::Extern);
    assert_eq!(uses[0].path, "alloc");
    assert_eq!(uses[1].stmt_type, ImportKind::Use);
    assert_eq!(uses[2].path, "core");
}

#[test]
fn impl_blocks_keep_source_order() {
    let source = "impl Point {\n    fn new() {}\n}\nimpl Display for Point {\n    fn fmt(&self) {}\n}\nimpl Clone for Point {\n}\nimpl Other {\n}\n";
    let impls = extract_ars_impls(source);
    assert_eq!(impls.len(), 4);
    assert_eq!(impls[0].trait_name, None);
    assert_eq!(impls[0].target, "Point");
    assert_eq!(impls[1].trait_name.as_deref(), Some("Display"));
    assert_eq!(impls[2].trait_name.as_deref(), Some("Clone"));
    assert_eq!(impls[3].target, "Other");
}

#[test]
fn inner_attributes_come_back_first_in_file() {
    let file = encode(&lines_of("#![allow(dead_code)]\nconst A: u8 = 1;"));
    assert_eq!(decode(&file), "#![allow(dead_code)]\nconst A: u8 = 1;\n\n");
}

#[test]
fn constant_comes_before_struct_in_model_and_output() {
    let file = encode(&lines_of("struct A;\nconst B: u32 = 1;"));
    assert_eq!(file.structs.len(), 1);
    assert_eq!(file.structs[0].name, "A");
    assert_eq!(file.constants.len(), 1);
    assert_eq!(file.constants[0].name, "B");
    let text = decode(&file);
    assert_eq!(text, "const B: u32 = 1;\n\nstruct A;\n\n");
    assert!(text.find("const B").unwrap() < text.find("struct A").unwrap());
}

#[test]
fn whole_file_round_trip() {
    let source = "use std::fmt;\n\nstruct Point { x: i32, y: i32 }\n\nfn origin() -> Point {\n    Point { x: 0, y: 0 }\n}\n";
    let file = encode(&lines_of(source));
    assert_eq!(file.uses.len(), 1);
    assert_eq!(file.structs.len(), 1);
    assert_eq!(file.functions.len(), 1);
    assert_eq!(
        decode(&file),
        "use std::fmt;\n\nstruct Point {\n    x: i32,\n    y: i32,\n}\n\nfn origin() -> Point {\n    Point { x : 0 , y : 0 }\n}\n\n"
    );
}

#[test]
fn balancer_finds_matching_close() {
    assert_eq!(matching_close(&chars_of(" a { b ( c ) } d } e"), false, '}'), Some(17));
    assert_eq!(matching_close(&chars_of("x(y)z)"), true, ')'), Some(5));
    assert_eq!(matching_close(&chars_of("{ }"), false, '}'), None);
    assert_eq!(matching_close(&chars_of("{{{}}}}"), false, '}'), Some(6));
}

#[test]
fn lines_trimmed_and_joined() {
    assert_eq!(extract_lines("  a  \n b\n"), vec!["a".to_string(), "b".to_string()]);
    assert_eq!(reconstruct_lines(&["a".to_string(), "b".to_string()]), "a\nb");
}

#[test]
fn trim_removes_unicode_whitespace() {
    assert_eq!(trimmed("\u{3000} x y\t\n"), "x y");
    assert_eq!(trimmed("   "), "");
}

fn found(groups: &[Option<&str>], rest: &str) -> Found {
    Found {
        groups: groups.iter().map(|g| g.map(|t| t.to_string())).collect(),
        rest: rest.to_string(),
    }
}

#[test]
fn struct_from_given_match() {
    let m = found(
        &[Some("pub struct Pair("), Some(""), Some("pub "), Some("Pair"), None, Some("(")],
        " u8, (u16, u32) ); struct B;",
    );
    let s = struct_from_match(&m, vec!["#[a]".to_string()]).unwrap();
    assert_eq!(s.name, "Pair");
    assert!(s.is_tuple);
    assert!(!s.is_unit);
    assert_eq!(s.visibility.as_deref(), Some("pub"));
    assert_eq!(s.generics, None);
    assert_eq!(s.attributes, vec!["#[a]".to_string()]);
    assert_eq!(s.fields, vec!["u8".to_string(), "(u16".to_string(), "u32)".to_string()]);
}

#[test]
fn impls_from_given_matches() {
    let m = found(
        &[Some("impl<T> Show for Box<T> {"), Some(""), Some("<T>"), Some(" Show "), Some("Box<T> ")],
        "\n  fn show(&self) {}\n\n}\n",
    );
    let b = trait_impl_from_match(&m, vec![]).unwrap();
    assert_eq!(b.trait_name.as_deref(), Some("Show"));
    assert_eq!(b.target, "Box<T>");
    assert_eq!(b.generics.as_deref(), Some("<T>"));
    assert_eq!(b.items, vec!["fn show(&self) {}".to_string()]);
    let m = found(&[Some("impl Point {"), Some(""), None, Some("Point")], "}");
    let b = plain_impl_from_match(&m, vec![]).unwrap();
    assert_eq!(b.trait_name, None);
    assert_eq!(b.target, "Point");
    assert!(b.items.is_empty());
    let m = found(&[Some("impl Point {"), Some(""), None, Some("Point")], " fn a() {}");
    assert!(plain_impl_from_match(&m, vec![]).is_none());
}

#[test]
fn macro_and_module_from_given_matches() {
    let m = found(&[Some("macro_rules! m {"), Some(""), None, Some("m")], " () => {} } rest");
    let d = macro_from_match(&m, vec![]).unwrap();
    assert_eq!(d.body, "() => {}");
    assert_eq!(d.macro_type, MacroKind::Declarative);
    let m = found(&[Some("macro_rules! m {"), Some(""), None, Some("m")], "} rest");
    assert_eq!(macro_from_match(&m, vec![]).unwrap().body, "");
    let m = found(&[Some("macro_rules! m {"), Some(""), None, Some("m")], " () => {");
    assert!(macro_from_match(&m, vec![]).is_none());
    let m = found(&[Some("mod a {"), Some(""), None, Some("a"), Some("{")], "}");
    let d = module_from_match(&m, vec![]).unwrap();
    assert!(d.inline);
    assert_eq!(d.body.as_deref(), Some(""));
    let m = found(&[Some("mod a {"), Some(""), None, Some("a"), Some("{")], " fn f() {");
    assert!(module_from_match(&m, vec![]).is_none());
}

#[test]
fn import_from_given_match() {
    let m = found(&[Some("use a::b as c as d;"), Some("a::b as c as d ")], "");
    let u = use_from_match(&m);
    assert_eq!(u.path, "a::b as c as d");
    assert_eq!(u.alias.as_deref(), Some("c"));
    assert!(!u.is_glob);
    let m = found(&[Some("extern crate core;"), Some(" core ")], "");
    let u = extern_from_match(&m);
    assert_eq!(u.stmt_type, ImportKind::Extern);
    assert_eq!(u.path, "core");
}

#[test]
fn trait_round_trip_keeps_items() {
    let first = extract_ars_traits("trait Processor<T> {\n    fn process(&self, value: T) -> T;\n}");
    let text = reconstruct_traits(&first);
    let again = extract_ars_traits(&text);
    assert_eq!(again.len(), 1);
    assert_eq!(again[0].name, "Processor");
    assert_eq!(again[0].generics.as_deref(), Some("<T>"));
    assert_eq!(again[0].items, vec!["fn process(&self, value: T) -> T;".to_string()]);
}

#[test]
fn balancer_counts_brackets_too() {
    assert_eq!(matching_close(&chars_of("[{]}}"), true, '}'), Some(4));
    assert_eq!(matching_close(&chars_of("a[b]c]"), true, ']'), Some(5));
    let enums = extract_ars_enums("enum E { A([u8; 2]), B }");
    assert_eq!(enums.len(), 1);
    assert_eq!(enums[0].variants, vec!["A([u8; 2])".to_string(), "B".to_string()]);
}
