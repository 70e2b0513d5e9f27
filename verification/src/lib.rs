//! A source-snippet transclusion library for markdown documentation.
//!
//! Documentation text may embed directives such as
//! `#![function_body!("../file.rs", hello_world)]`.  Each directive names a
//! code element (a function, method, struct, enum, trait, or impl block)
//! living in an external Rust source file.  The library parses the directive,
//! locates the element inside the file's syntax tree, renders it back to
//! formatted text (optionally folding lines outside display markers into
//! hidden, `# `-prefixed lines), and substitutes the directive occurrence
//! with that text, so the documentation always shows real code.
//!
//! Reading the referenced files from disk is the caller's job: the caller
//! scans a document with [`parser::scan_directives`], reads the file each
//! directive names, and hands the contents to [`parser::process_markdown`].

pub mod directive;
pub mod error;
pub mod formatter;
pub mod laws;
pub mod loader;
pub mod locator;
pub mod model;
pub mod output;
pub mod parser;
pub mod preprocessor;
pub mod text;

