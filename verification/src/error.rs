//! The errors a directive can fail with.
//!
//! Every failure is caught at single-directive granularity and turned into
//! an inline diagnostic; no error aborts the processing of a document.

use vstd::prelude::*;
use vstd::string::StringExecFns;

verus! {

/// The mathematical view of a [`SnippetError`].
pub enum ErrorModel {
    /// The directive text does not match the grammar (bad call syntax,
    /// missing path, or a missing item name where the kind requires one).
    MalformedDirective { directive: Seq<char> },
    /// The referenced source file is missing or unreadable.
    FileNotFound { path: Seq<char> },
    /// The referenced file's content is not parseable source code.
    SyntaxError { path: Seq<char> },
    /// The primary item reference did not resolve; the first field is the
    /// word for the looked-up shape (`function`, `struct`, `method`, ...).
    ElementNotFound { kind: Seq<char>, name: Seq<char> },
    /// An auxiliary dependency reference did not resolve.
    DependencyNotFound { name: Seq<char> },
}

/// Why a directive failed to resolve.
#[derive(Debug)]
pub enum SnippetError {
    /// The directive text does not match the grammar (bad call syntax,
    /// missing path, or a missing item name where the kind requires one).
    MalformedDirective { directive: String },
    /// The referenced source file is missing or unreadable.
    FileNotFound { path: String },
    /// The referenced file's content is not parseable source code.
    SyntaxError { path: String },
    /// The primary item reference did not resolve.
    ElementNotFound { kind: String, name: String },
    /// An auxiliary dependency reference did not resolve.
    DependencyNotFound { name: String },
}

impl View for SnippetError {
    type V = ErrorModel;

    open spec fn view(&self) -> ErrorModel {
        match self {
            SnippetError::MalformedDirective { directive } => ErrorModel::MalformedDirective {
                directive: directive@,
            },
            SnippetError::FileNotFound { path } => ErrorModel::FileNotFound { path: path@ },
            SnippetError::SyntaxError { path } => ErrorModel::SyntaxError { path: path@ },
            SnippetError::ElementNotFound { kind, name } => ErrorModel::ElementNotFound {
                kind: kind@,
                name: name@,
            },
            SnippetError::DependencyNotFound { name } => ErrorModel::DependencyNotFound {
                name: name@,
            },
        }
    }
}

/// The diagnostic message of an error.
pub open spec fn message_spec(e: ErrorModel) -> Seq<char> {
    match e {
        ErrorModel::MalformedDirective { directive } => "Failed to parse directive: "@ + directive,
        ErrorModel::FileNotFound { path } => "Failed to read file: "@ + path,
        ErrorModel::SyntaxError { path } => "Failed to parse file: "@ + path,
        ErrorModel::ElementNotFound { kind, name } => kind + " '"@ + name + "' not found"@,
        ErrorModel::DependencyNotFound { name } => "dependency '"@ + name + "' not found"@,
    }
}

impl SnippetError {
    /// Renders the diagnostic message.
    pub fn message(&self) -> (r: String)
        ensures
            r@ == message_spec(self@),
    {
        match self {
            SnippetError::MalformedDirective { directive } => {
                let mut m = String::from_str("Failed to parse directive: ");
                m.append(directive.as_str());
                m
            },
            SnippetError::FileNotFound { path } => {
                let mut m = String::from_str("Failed to read file: ");
                m.append(path.as_str());
                m
            },
            SnippetError::SyntaxError { path } => {
                let mut m = String::from_str("Failed to parse file: ");
                m.append(path.as_str());
                m
            },
            SnippetError::ElementNotFound { kind, name } => {
                let mut m = kind.clone();
                m.append(" '");
                m.append(name.as_str());
                m.append("' not found");
                m
            },
            SnippetError::DependencyNotFound { name } => {
                let mut m = String::from_str("dependency '");
                m.append(name.as_str());
                m.append("' not found");
                m
            },
        }
    }
}

} // verus!
