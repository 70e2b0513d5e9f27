use mdbook_include_rs::parser::process_markdown;

/// The example source file the directives reference.
const FIXTURE: &str = "use std::fmt;\nfn hello_world() {\n    println!(\"Hello, world!\");\n}\n\nstruct TestStruct {\n    name: String,\n    value: i32,\n}\n\nimpl TestStruct {\n    fn new(name: &str, value: i32) -> Self {\n        Self {\n            name: name.to_string(),\n            value,\n        }\n    }\n\n    fn print(&self) {\n        println!(\"Name: {}, Value: {}\", self.name, self.value);\n    }\n}\n\nenum TestEnum {\n    A,\n    B(i32),\n    C { name: String },\n}\n\ntrait TestTrait {\n    fn test_method(&self) -> String;\n    fn default_method(&self) -> i32 {\n        42\n    }\n}\n\nimpl TestTrait for TestStruct {\n    fn test_method(&self) -> String {\n        format!(\"TestStruct: {}\", self.name)\n    }\n}\n";

fn run(content: &str, chapter_path: &str, n_directives: usize) -> (String, Vec<String>) {
    let mut text = content.to_string();
    let files: Vec<Option<String>> = (0..n_directives).map(|_| Some(FIXTURE.to_string())).collect();
    let errs = process_markdown("", chapter_path, &mut text, &files);
    (text, errs)
}

#[test]
fn test_empty_preprocessor() {
    let mut text = "Some content".to_string();
    let errs = process_markdown("", "chapter_1.md", &mut text, &Vec::new());
    assert_eq!(text, "Some content");
    assert!(errs.is_empty(), "Chapter not found in processed book");
}

#[test]
fn test_source_file_preprocessor() {
    let content = "Some preamble\n```rust\n#![source_file!(\"../test_file.rs\")]\n```\n after";
    let (out, errs) = run(content, "chapter_1.md", 1);
    assert!(errs.is_empty());
    let expected = format!(
        "Some preamble\n```rust\n{}\n```\n after",
        FIXTURE.trim_end()
    );
    assert_eq!(out, expected);
}

#[test]
fn test_function_body_preprocessor() {
    let content =
        "some preamble\n```rust\n#![function_body!(\"../test_file.rs\", hello_world)]\n```\n after";
    let (out, errs) = run(content, "chapter_1.md", 1);
    assert!(errs.is_empty());
    // Everything but the requested function is hidden; the function body is
    // rewrapped under a synthetic entry point whose first and last lines
    // are hidden, the call line staying visible.
    let mut replacement = String::new();
    replacement.push_str("# use std::fmt;\n");
    replacement.push_str("# struct TestStruct {\n#     name: String,\n#     value: i32,\n# }\n");
    replacement.push_str("# impl TestStruct {\n#     fn new(name: &str, value: i32) -> Self {\n#         Self {\n#             name: name.to_string(),\n#             value,\n#         }\n#     }\n# \n#     fn print(&self) {\n#         println!(\"Name: {}, Value: {}\", self.name, self.value);\n#     }\n# }\n");
    replacement.push_str("# enum TestEnum {\n#     A,\n#     B(i32),\n#     C { name: String },\n# }\n");
    replacement.push_str("# trait TestTrait {\n#     fn test_method(&self) -> String;\n#     fn default_method(&self) -> i32 {\n#         42\n#     }\n# }\n");
    replacement.push_str("# impl TestTrait for TestStruct {\n#     fn test_method(&self) -> String {\n#         format!(\"TestStruct: {}\", self.name)\n#     }\n# }\n");
    replacement.push_str("# fn main() {\nprintln!(\"Hello, world!\");\n# }");
    let expected = format!("some preamble\n```rust\n{}\n```\n after", replacement);
    assert_eq!(out, expected);
}

#[test]
fn test_complex_function_body_preprocessor() {
    let content = "some preamble\n```rust\n#![function_body!(\"../test_file.rs\", TestStruct::print, [struct TestStruct, impl TestStruct::new, trait TestTrait, impl TestTrait for TestStruct])]\n```\n after";
    let (out, errs) = run(content, "chapter_1.md", 1);
    assert!(errs.is_empty());
    // The listed dependencies are shown visibly, in the directive's order,
    // followed by the requested method's body.
    let mut replacement = String::new();
    replacement.push_str("struct TestStruct {\n    name: String,\n    value: i32,\n}\n");
    replacement.push_str("fn new(name: &str, value: i32) -> Self {\n    Self {\n        name: name.to_string(),\n        value,\n    }\n}\n");
    replacement.push_str("trait TestTrait {\n    fn test_method(&self) -> String;\n    fn default_method(&self) -> i32 {\n        42\n    }\n}\n");
    replacement.push_str("impl TestTrait for TestStruct {\n    fn test_method(&self) -> String {\n        format!(\"TestStruct: {}\", self.name)\n    }\n}\n");
    replacement.push_str("# fn main() {\n    println!(\"Name: {}, Value: {}\", self.name, self.value);\n# }");
    let expected = format!("some preamble\n```rust\n{}\n```\n after", replacement);
    assert_eq!(out, expected);
}

#[test]
fn simple_test_test_relative_path_with_source_path() {
    let content = "```rust\n#![source_file!(\"../test_file.rs\")]\n```";
    let (out, _errs) = run(content, "relative_test.md", 1);
    assert!(
        out.contains("struct TestStruct"),
        "Output doesn't contain expected content from test_file.rs"
    );
}
