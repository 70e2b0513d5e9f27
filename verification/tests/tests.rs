use mdbook_include_rs::parser::process_markdown;

/// The example source file the directives reference.
const FIXTURE: &str = "use std::fmt;\nfn hello_world() {\n    println!(\"Hello, world!\");\n}\n\nstruct TestStruct {\n    name: String,\n    value: i32,\n}\n\nimpl TestStruct {\n    fn new(name: &str, value: i32) -> Self {\n        Self {\n            name: name.to_string(),\n            value,\n        }\n    }\n\n    fn print(&self) {\n        println!(\"Name: {}, Value: {}\", self.name, self.value);\n    }\n}\n\nenum TestEnum {\n    A,\n    B(i32),\n    C { name: String },\n}\n\ntrait TestTrait {\n    fn test_method(&self) -> String;\n    fn default_method(&self) -> i32 {\n        42\n    }\n}\n\nimpl TestTrait for TestStruct {\n    fn test_method(&self) -> String {\n        format!(\"TestStruct: {}\", self.name)\n    }\n}\n";

const I2_STRUCT: &str = "struct TestStruct {\n    name: String,\n    value: i32,\n}";
const I3_IMPL: &str = "impl TestStruct {\n    fn new(name: &str, value: i32) -> Self {\n        Self {\n            name: name.to_string(),\n            value,\n        }\n    }\n\n    fn print(&self) {\n        println!(\"Name: {}, Value: {}\", self.name, self.value);\n    }\n}";
const I4_ENUM: &str = "enum TestEnum {\n    A,\n    B(i32),\n    C { name: String },\n}";
const I5_TRAIT: &str = "trait TestTrait {\n    fn test_method(&self) -> String;\n    fn default_method(&self) -> i32 {\n        42\n    }\n}";
const I6_TRAIT_IMPL: &str = "impl TestTrait for TestStruct {\n    fn test_method(&self) -> String {\n        format!(\"TestStruct: {}\", self.name)\n    }\n}";

const H0: &str = "# use std::fmt;\n";
const H1: &str = "# fn hello_world() {\n#     println!(\"Hello, world!\");\n# }\n";
const H2: &str = "# struct TestStruct {\n#     name: String,\n#     value: i32,\n# }\n";
const H3: &str = "# impl TestStruct {\n#     fn new(name: &str, value: i32) -> Self {\n#         Self {\n#             name: name.to_string(),\n#             value,\n#         }\n#     }\n# \n#     fn print(&self) {\n#         println!(\"Name: {}, Value: {}\", self.name, self.value);\n#     }\n# }\n";
const H4: &str = "# enum TestEnum {\n#     A,\n#     B(i32),\n#     C { name: String },\n# }\n";
const H5: &str = "# trait TestTrait {\n#     fn test_method(&self) -> String;\n#     fn default_method(&self) -> i32 {\n#         42\n#     }\n# }\n";
const H6: &str = "# impl TestTrait for TestStruct {\n#     fn test_method(&self) -> String {\n#         format!(\"TestStruct: {}\", self.name)\n#     }\n# }\n";

/// Runs a chapter's content through the directive pipeline, with the
/// fixture standing in for every referenced file.
fn run(content: &str, chapter_path: &str, n_directives: usize) -> (String, Vec<String>) {
    let mut text = content.to_string();
    let files: Vec<Option<String>> = (0..n_directives).map(|_| Some(FIXTURE.to_string())).collect();
    let errs = process_markdown("", chapter_path, &mut text, &files);
    (text, errs)
}

/// Builds a chapter that embeds one directive in a code block.
fn chapter_content(preamble: &str, directive: &str) -> String {
    format!("{}\n```rust\n{}\n```\nafter {}", preamble, directive, preamble)
}

/// The expected chapter content after one directive is replaced.
fn expected_content(preamble: &str, replacement: &str) -> String {
    format!("{}\n```rust\n{}\n```\nafter {}", preamble, replacement, preamble)
}

#[test]
fn test_empty() {
    let mut text = "Some content".to_string();
    let errs = process_markdown("", "chapter_1.md", &mut text, &Vec::new());
    assert_eq!(text, "Some content");
    assert!(errs.is_empty(), "Chapter not found in processed book");
}

#[test]
fn test_source_file() {
    let content = chapter_content("Some preamble", "#![source_file!(\"../test_file.rs\")]");
    let (out, errs) = run(&content, "chapter_1.md", 1);
    assert!(errs.is_empty());
    assert_eq!(out, expected_content("Some preamble", FIXTURE.trim_end()));
}

#[test]
fn test_function_body() {
    let content = chapter_content(
        "some preamble",
        "#![function_body!(\"../test_file.rs\", free_function)]",
    );
    let (out, errs) = run(&content, "chapter_1.md", 1);
    let diag = "./chapter_1.md:3:1: function 'free_function' not found";
    assert_eq!(errs, vec![diag.to_string()]);
    assert_eq!(out, expected_content("some preamble", diag));
}

#[test]
fn test_complex_function_body() {
    let content = chapter_content(
        "some preamble",
        "#![function_body!(\"../test_file.rs\", free_function, [struct TestStruct, impl TestStruct, trait TestTrait, impl TestTrait for TestStruct, enum TestEnum])]",
    );
    let (out, errs) = run(&content, "chapter_1.md", 1);
    let diag = "./chapter_1.md:3:1: function 'free_function' not found";
    assert_eq!(errs, vec![diag.to_string()]);
    assert_eq!(out, expected_content("some preamble", diag));
}

#[test]
fn test_struct() {
    let content = chapter_content("struct preamble", "#![struct!(\"../test_file.rs\", TestStruct)]");
    let (out, errs) = run(&content, "chapter_1.md", 1);
    assert!(errs.is_empty());
    let replacement = format!("{H0}{H1}{H3}{H4}{H5}{H6}{I2_STRUCT}");
    assert_eq!(out, expected_content("struct preamble", &replacement));
}

#[test]
fn test_enum() {
    let content = chapter_content("enum preamble", "#![enum!(\"../test_file.rs\", TestEnum)]");
    let (out, errs) = run(&content, "chapter_1.md", 1);
    assert!(errs.is_empty());
    let replacement = format!("{H0}{H1}{H2}{H3}{H5}{H6}{I4_ENUM}");
    assert_eq!(out, expected_content("enum preamble", &replacement));
}

#[test]
fn test_trait() {
    let content = chapter_content("trait preamble", "#![trait!(\"../test_file.rs\", TestTrait)]");
    let (out, errs) = run(&content, "chapter_1.md", 1);
    assert!(errs.is_empty());
    let replacement = format!("{H0}{H1}{H2}{H3}{H4}{H6}{I5_TRAIT}");
    assert_eq!(out, expected_content("trait preamble", &replacement));
}

#[test]
fn test_impl() {
    let content = chapter_content("impl preamble", "#![impl!(\"../test_file.rs\", TestStruct)]");
    let (out, errs) = run(&content, "chapter_1.md", 1);
    assert!(errs.is_empty());
    let replacement = format!("{H0}{H1}{H2}{H4}{H5}{H6}{I3_IMPL}");
    assert_eq!(out, expected_content("impl preamble", &replacement));
}

#[test]
fn test_trait_impl() {
    let content = chapter_content(
        "trait impl preamble",
        "#![trait_impl!(\"../test_file.rs\", TestTrait for TestStruct)]",
    );
    let (out, errs) = run(&content, "chapter_1.md", 1);
    assert!(errs.is_empty());
    let replacement = format!("{H0}{H1}{H2}{H3}{H4}{H5}{I6_TRAIT_IMPL}");
    assert_eq!(out, expected_content("trait impl preamble", &replacement));
}

#[test]
fn test_function() {
    let content = chapter_content(
        "function preamble",
        "#![function!(\"../test_file.rs\", free_function)]",
    );
    let (out, errs) = run(&content, "chapter_1.md", 1);
    let diag = "./chapter_1.md:3:1: function 'free_function' not found";
    assert_eq!(errs, vec![diag.to_string()]);
    assert_eq!(out, expected_content("function preamble", diag));
}

#[test]
fn tests_test_relative_path_with_source_path() {
    let content = chapter_content(
        "relative path preamble",
        "#![source_file!(\"../test_file.rs\")]",
    );
    let (out, errs) = run(&content, "relative_test.md", 1);
    assert!(errs.is_empty());
    assert_eq!(out, expected_content("relative path preamble", FIXTURE.trim_end()));
}
