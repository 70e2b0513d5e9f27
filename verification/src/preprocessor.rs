//! The preprocessor identity.
//!
//! The host adapter owns the book traversal and the file reads; the library
//! supplies the name under which the preprocessor registers, the renderer
//! policy (every renderer is supported), and the whole per-chapter
//! substitution through [`crate::parser::process_markdown`].

use vstd::prelude::*;

verus! {

/// The preprocessor that substitutes source-snippet directives in markdown
/// chapters.
pub struct IncludeRsPreprocessor;

impl IncludeRsPreprocessor {
    /// The name under which the preprocessor registers with its host.
    pub fn name(&self) -> (r: &'static str)
        ensures
            r@ == "include-rs"@,
    {
        "include-rs"
    }

    /// Every renderer is supported.
    pub fn supports_renderer(&self, renderer: &str) -> (r: bool)
        ensures
            r,
    {
        true
    }
}

} // verus!
