use mdbook_include_rs::directive::parse_directive_args;
use mdbook_include_rs::formatter::dedent;
use mdbook_include_rs::formatter::format_hidden;
use mdbook_include_rs::formatter::format_item;
use mdbook_include_rs::formatter::format_visible;
use mdbook_include_rs::loader::parse_source;
use mdbook_include_rs::locator::find_method;
use mdbook_include_rs::locator::find_struct;
use mdbook_include_rs::model::ItemKind;
use mdbook_include_rs::output::Output;
use mdbook_include_rs::parser::find_line_and_col;
use mdbook_include_rs::parser::get_relative_path;
use mdbook_include_rs::parser::process_extra;
use mdbook_include_rs::parser::process_include_rs_directive;
use mdbook_include_rs::parser::process_markdown;
use mdbook_include_rs::parser::scan_directives;
use mdbook_include_rs::parser::ResolvedDep;
use mdbook_include_rs::preprocessor::IncludeRsPreprocessor;
use mdbook_include_rs::text::usize_to_string;

const FIXTURE: &str = "use std::fmt;\nfn hello_world() {\n    println!(\"Hello, world!\");\n}\n\nstruct TestStruct {\n    name: String,\n    value: i32,\n}\n\nimpl TestStruct {\n    fn new(name: &str, value: i32) -> Self {\n        Self {\n            name: name.to_string(),\n            value,\n        }\n    }\n\n    fn print(&self) {\n        println!(\"Name: {}, Value: {}\", self.name, self.value);\n    }\n}\n\nenum TestEnum {\n    A,\n    B(i32),\n    C { name: String },\n}\n\ntrait TestTrait {\n    fn test_method(&self) -> String;\n    fn default_method(&self) -> i32 {\n        42\n    }\n}\n\nimpl TestTrait for TestStruct {\n    fn test_method(&self) -> String {\n        format!(\"TestStruct: {}\", self.name)\n    }\n}\n";

// ---------------------------------------------------------------------
// Directive grammar
// ---------------------------------------------------------------------

#[test]
fn directive_with_item_and_deps() {
    let d = parse_directive_args(
        "function_body!(\"src/lib.rs\", TestStruct::print, [struct TestStruct, impl TestStruct::new])",
    )
    .unwrap();
    assert_eq!(d.file_path, "src/lib.rs");
    assert_eq!(d.item, Some("TestStruct::print".to_string()));
    assert_eq!(
        d.extra_items,
        vec!["struct TestStruct".to_string(), "impl TestStruct::new".to_string()]
    );
}

#[test]
fn directive_without_item() {
    let d = parse_directive_args("source_file!(\"a/b.rs\")").unwrap();
    assert_eq!(d.file_path, "a/b.rs");
    assert_eq!(d.item, None);
    assert!(d.extra_items.is_empty());
}

#[test]
fn directive_empty_dependency_list() {
    let d = parse_directive_args("function!(\"a.rs\", foo, [])").unwrap();
    assert_eq!(d.item, Some("foo".to_string()));
    assert!(d.extra_items.is_empty());
}

#[test]
fn directive_trims_item_and_deps() {
    let d = parse_directive_args("function!(\"a.rs\",   foo  , [  a ,  b ])").unwrap();
    assert_eq!(d.item, Some("foo".to_string()));
    assert_eq!(d.extra_items, vec!["a".to_string(), "b".to_string()]);
}

#[test]
fn directive_spanning_lines() {
    let d = parse_directive_args("function!(\"a.rs\",\n    foo,\n    [a,\n     b])").unwrap();
    assert_eq!(d.item, Some("foo".to_string()));
    assert_eq!(d.extra_items, vec!["a".to_string(), "b".to_string()]);
}

#[test]
fn directive_missing_quote_is_malformed() {
    let e = parse_directive_args("struct!(no_quotes)").unwrap_err();
    assert_eq!(e.message(), "Failed to parse directive: struct!(no_quotes)");
}

#[test]
fn directive_unbalanced_is_malformed() {
    assert!(parse_directive_args("struct!(\"a.rs\", Foo").is_err());
}

// ---------------------------------------------------------------------
// Renderer
// ---------------------------------------------------------------------

#[test]
fn dedent_keeps_first_line_and_strips_common_indent() {
    let text = "fn f() {\n        a();\n\n    }";
    assert_eq!(dedent(text), "fn f() {\n    a();\n\n}");
}

#[test]
fn dedent_blank_lines_become_empty() {
    assert_eq!(dedent("a\n   \nb"), "a\n\nb");
}

#[test]
fn format_hidden_prefixes_every_line() {
    assert_eq!(format_hidden("a\n\nb"), "# a\n# \n# b\n");
}

#[test]
fn format_visible_closes_every_line() {
    assert_eq!(format_visible("a\nb"), "a\nb\n");
}

// P1: rendering the same element twice yields byte-identical text.
#[test]
fn whole_item_rendering_is_deterministic() {
    let parsed = parse_source(FIXTURE).unwrap();
    let i = find_struct(&parsed, "TestStruct").unwrap();
    let once = format_item(parsed.item(i));
    let twice = format_item(parsed.item(i));
    assert_eq!(once, twice);
}

// P3: lines before the opening marker and after the closing one are
// hidden, the lines between are visible, the marker lines are consumed.
#[test]
fn display_markers_fold_the_body() {
    let source = "fn marked() {\n    let a = 1;\n    // DISPLAY START\n    let b = 2;\n    // DISPLAY END\n    let c = 3;\n}\n";
    let out = process_include_rs_directive("function_body!(\"m.rs\", marked)", Some(source))
        .unwrap();
    assert_eq!(out, "# fn main() {\n# let a = 1;\nlet b = 2;\n# let c = 3;\n# }");
}

#[test]
fn single_line_body_renders_empty() {
    let source = "fn tiny() { }\nstruct S;\n";
    let out = process_include_rs_directive("function_body!(\"m.rs\", tiny)", Some(source)).unwrap();
    // the body is empty; only the other items remain, hidden
    assert_eq!(out, "# struct S;");
}

// ---------------------------------------------------------------------
// Output composition
// ---------------------------------------------------------------------

#[test]
fn output_orders_hidden_before_visible() {
    let mut out = Output::new();
    out.add_hidden_content("a\nb".to_string());
    out.add_visible_content("c".to_string());
    assert_eq!(out.format(), "# a\n# b\nc\n");
}

// P4: dependencies appear in the directive's order, not the file's.
#[test]
fn dependency_order_is_preserved() {
    let out = process_include_rs_directive(
        "function_body!(\"m.rs\", TestStruct::print, [trait TestTrait, struct TestStruct])",
        Some(FIXTURE),
    )
    .unwrap();
    let trait_at = out.find("trait TestTrait").unwrap();
    let struct_at = out.find("struct TestStruct").unwrap();
    assert!(
        trait_at < struct_at,
        "the directive's order must win over the file's declaration order"
    );
}

// P2: the hidden items, the visible items and the primary item partition
// the file's top-level items.
#[test]
fn hidden_visible_partition_is_complete() {
    let parsed = parse_source(FIXTURE).unwrap();
    let primary = find_struct(&parsed, "TestStruct").unwrap();
    let extras = vec!["enum TestEnum".to_string()];
    let (hidden, visible) = process_extra(&parsed, primary, &extras).unwrap();
    assert_eq!(visible, vec![ResolvedDep::Item(4)]);
    assert_eq!(hidden, vec![0, 1, 3, 5, 6]);
    let mut seen = vec![false; parsed.len()];
    for &h in &hidden {
        assert!(!seen[h]);
        seen[h] = true;
    }
    for v in &visible {
        if let ResolvedDep::Item(i) = v {
            assert!(!seen[*i]);
            seen[*i] = true;
        }
    }
    assert!(!seen[primary]);
    seen[primary] = true;
    assert!(seen.iter().all(|&s| s));
}

// P5: a free name resolves to the top-level function even when a method of
// the same name exists.
#[test]
fn free_name_prefers_top_level_function() {
    let source = "struct T;\nimpl T {\n    fn f(&self) -> u8 {\n        2\n    }\n}\nfn f() -> u8 {\n    1\n}\n";
    let out = process_include_rs_directive("function!(\"m.rs\", f)", Some(source)).unwrap();
    assert!(out.ends_with("fn f() -> u8 {\n    1\n}"));
}

#[test]
fn free_name_falls_back_to_any_method() {
    let source = "struct T;\nimpl T {\n    fn g(&self) -> u8 {\n        2\n    }\n}\n";
    let out = process_include_rs_directive("function!(\"m.rs\", g)", Some(source)).unwrap();
    assert!(out.ends_with("fn g(&self) -> u8 {\n    2\n}"));
}

// ---------------------------------------------------------------------
// Error taxonomy
// ---------------------------------------------------------------------

#[test]
fn missing_file_reports_read_failure() {
    let e = process_include_rs_directive("struct!(\"gone.rs\", S)", None).unwrap_err();
    assert_eq!(e.message(), "Failed to read file: gone.rs");
}

#[test]
fn unparseable_file_reports_syntax_error() {
    let e = process_include_rs_directive("struct!(\"bad.rs\", S)", Some("fn {")).unwrap_err();
    assert_eq!(e.message(), "Failed to parse file: bad.rs");
}

#[test]
fn missing_struct_reports_element_not_found() {
    let e = process_include_rs_directive("struct!(\"m.rs\", Nope)", Some(FIXTURE)).unwrap_err();
    assert_eq!(e.message(), "struct 'Nope' not found");
}

#[test]
fn missing_method_reports_element_not_found() {
    let e = process_include_rs_directive(
        "function_body!(\"m.rs\", TestStruct::nope)",
        Some(FIXTURE),
    )
    .unwrap_err();
    assert_eq!(e.message(), "Method 'TestStruct::nope' not found");
}

#[test]
fn missing_dependency_fails_the_directive() {
    let e = process_include_rs_directive(
        "function_body!(\"m.rs\", hello_world, [struct Nope])",
        Some(FIXTURE),
    )
    .unwrap_err();
    assert_eq!(e.message(), "dependency 'struct Nope' not found");
}

#[test]
fn malformed_directive_reports_parse_failure() {
    let e = process_include_rs_directive("struct!(no_quotes)", Some(FIXTURE)).unwrap_err();
    assert_eq!(e.message(), "Failed to parse directive: struct!(no_quotes)");
}

// P8: a failing directive degrades to an inline diagnostic with the
// element name and the occurrence's line and column, and later directives
// are still processed.
#[test]
fn error_scenario_processing_continues() {
    let content = "intro\n#![struct!(\"../f.rs\", Nope)]\nmiddle\n#![enum!(\"../f.rs\", TestEnum)]\nend";
    let mut text = content.to_string();
    let files = vec![Some(FIXTURE.to_string()), Some(FIXTURE.to_string())];
    let errs = process_markdown("", "ch.md", &mut text, &files);
    assert_eq!(errs.len(), 1);
    assert_eq!(errs[0], "./ch.md:2:1: struct 'Nope' not found");
    assert!(text.contains("./ch.md:2:1: struct 'Nope' not found"));
    assert!(text.contains("enum TestEnum {"));
    assert!(text.starts_with("intro\n"));
    assert!(text.ends_with("\nend"));
}

// ---------------------------------------------------------------------
// Scanner, locations, paths
// ---------------------------------------------------------------------

#[test]
fn scanner_finds_ranges_in_order() {
    let content = "a\n#![struct!(\"f.rs\", S)]\nb\n#![enum!(\"f.rs\", E)]\n";
    let occ = scan_directives(content);
    assert_eq!(occ, vec![(2, 24), (27, 47)]);
}

#[test]
fn scanner_ignores_mid_line_and_unknown_kinds() {
    let content = "x #![struct!(\"f.rs\", S)]\n#![mystery!(\"f.rs\", S)]\n";
    assert!(scan_directives(content).is_empty());
}

#[test]
fn line_and_column_are_one_based() {
    let positions = vec![0, 10, 20];
    assert_eq!(find_line_and_col(&positions, 15), (2, 6));
    assert_eq!(find_line_and_col(&positions, 0), (1, 1));
    assert_eq!(find_line_and_col(&positions, 20), (3, 1));
}

#[test]
fn relative_path_strips_the_root() {
    assert_eq!(get_relative_path("/a/b", "/a/b/c.md"), "./c.md");
    assert_eq!(get_relative_path("", "c.md"), "./c.md");
    assert_eq!(get_relative_path("/x", "c.md"), "./c.md");
}

#[test]
fn decimal_rendering() {
    assert_eq!(usize_to_string(0), "0");
    assert_eq!(usize_to_string(7), "7");
    assert_eq!(usize_to_string(120), "120");
}

// ---------------------------------------------------------------------
// The parsed-source model (exercises the syntax-tree boundary)
// ---------------------------------------------------------------------

#[test]
fn parse_source_models_the_items() {
    let parsed = parse_source(FIXTURE).unwrap();
    assert_eq!(parsed.len(), 7);
    assert_eq!(parsed.item(0).kind, ItemKind::Other);
    assert_eq!(parsed.item(0).text, "use std::fmt;");
    assert_eq!(parsed.item(1).kind, ItemKind::Function);
    assert_eq!(parsed.item(1).name, "hello_world");
    assert_eq!(parsed.item(2).kind, ItemKind::Struct);
    assert_eq!(parsed.item(2).name, "TestStruct");
    assert_eq!(parsed.item(3).kind, ItemKind::Impl);
    assert_eq!(parsed.item(3).name, "TestStruct");
    assert_eq!(parsed.item(3).trait_name, None);
    assert_eq!(parsed.item(3).entries.len(), 2);
    assert!(parsed.item(3).entries[0].is_fn);
    assert_eq!(parsed.item(3).entries[0].name, "new");
    assert_eq!(parsed.item(4).kind, ItemKind::Enum);
    assert_eq!(parsed.item(4).name, "TestEnum");
    assert_eq!(parsed.item(5).kind, ItemKind::Trait);
    assert_eq!(parsed.item(5).name, "TestTrait");
    assert_eq!(parsed.item(6).kind, ItemKind::Impl);
    assert_eq!(parsed.item(6).trait_name, Some("TestTrait".to_string()));
    assert_eq!(
        parsed.item(6).entries[0].text,
        "fn test_method(&self) -> String {\n        format!(\"TestStruct: {}\", self.name)\n    }"
    );
    assert!(parse_source("fn {").is_none());
}

#[test]
fn qualified_method_lookup() {
    let parsed = parse_source(FIXTURE).unwrap();
    assert_eq!(find_method(&parsed, "TestStruct::print"), Some((3, 1)));
    assert_eq!(
        find_method(&parsed, "TestTrait for TestStruct::test_method"),
        Some((6, 0))
    );
    assert_eq!(find_method(&parsed, "TestStruct::nope"), None);
    assert_eq!(find_method(&parsed, "bare_name"), None);
}

#[test]
fn preprocessor_identity() {
    let p = IncludeRsPreprocessor;
    assert_eq!(p.name(), "include-rs");
    assert!(p.supports_renderer("html"));
}
