use mcp_edit_core::code_definitions::{CodeDefinition, ListCodeDefinitionNamesTool};

fn def(kind: &str, name: &str, line: usize, sig: &str) -> CodeDefinition {
    CodeDefinition {
        kind: kind.to_string(),
        name: name.to_string(),
        line_number: line,
        signature: sig.to_string(),
    }
}

#[test]
fn function_end_closes_first_block() {
    assert_eq!(ListCodeDefinitionNamesTool::find_function_end("fn a() { if x { y } }\nrest"), Some(21));
    assert_eq!(ListCodeDefinitionNamesTool::find_function_end("fn a();\nfn b() {}"), Some(7));
    assert_eq!(ListCodeDefinitionNamesTool::find_function_end("fn a() { open"), None);
    assert_eq!(ListCodeDefinitionNamesTool::find_function_end(""), None);
}

#[test]
fn single_definition_takes_name_up_to_space() {
    let d = ListCodeDefinitionNamesTool::extract_single_definition("  pub fn run (x: u8) {}  ").unwrap();
    assert_eq!(d.kind, "function");
    assert_eq!(d.name, "run");
    assert_eq!(d.line_number, 1);
    assert_eq!(d.signature, "pub fn run (x: u8) {}");
    assert!(ListCodeDefinitionNamesTool::extract_single_definition("let x = 1;").is_none());
    assert!(ListCodeDefinitionNamesTool::extract_single_definition("fn tail").is_none());
}

#[test]
fn definitions_found_line_by_line() {
    let content = "pub struct Point {\n    x: i32,\n}\n\nimpl Display for Point {\n    fn fmt(&self) -> String {\n        todo()\n    }\n}\nconst MAX_LEN: usize = 4;\npub enum Shape { A }\nimpl Point {}\n";
    let defs = ListCodeDefinitionNamesTool::extract_definitions_zero_copy(content);
    let got: Vec<(String, String, usize, String)> = defs
        .into_iter()
        .map(|d| (d.kind, d.name, d.line_number, d.signature))
        .collect();
    let want = vec![
        ("struct", "Point", 1, "pub struct Point {"),
        ("impl", "Display for Point", 5, "impl Display for Point {"),
        ("function", "fmt", 6, "fn fmt(&self) -> String {"),
        ("const", "MAX_LEN", 10, "const MAX_LEN: usize = 4;"),
        ("enum", "Shape", 11, "pub enum Shape { A }"),
        ("impl", "Point", 12, "impl Point {}"),
    ];
    let want: Vec<(String, String, usize, String)> = want
        .into_iter()
        .map(|(k, n, l, s)| (k.to_string(), n.to_string(), l, s.to_string()))
        .collect();
    assert_eq!(got, want);
}

#[test]
fn line_numbers_restart_every_thousand_lines() {
    let mut content = "\n".repeat(1000);
    content.push_str("fn late() {}\n");
    let defs = ListCodeDefinitionNamesTool::extract_definitions(&content, "late.rs");
    assert_eq!(defs.len(), 1);
    assert_eq!(defs[0].name, "late");
    assert_eq!(defs[0].line_number, 1);
}

#[test]
fn listing_groups_sorted_kinds() {
    let defs = vec![
        def("struct", "A", 3, "struct A;"),
        def("function", "f", 1, "fn f() {"),
        def("struct", "B", 9, "struct B;"),
    ];
    let out = ListCodeDefinitionNamesTool::format_definitions_optimized(defs);
    let expected = "Code Definitions:\n================\n\n\
functions:\n---------\n  â€¢ f (line 1): fn f() {\n\n\
structs:\n-------\n  â€¢ A (line 3): struct A;\n  â€¢ B (line 9): struct B;\n\n";
    assert_eq!(out, expected);
}

#[test]
fn listing_of_nothing() {
    assert_eq!(
        ListCodeDefinitionNamesTool::format_definitions_optimized(Vec::new()),
        "No code definitions found."
    );
}
