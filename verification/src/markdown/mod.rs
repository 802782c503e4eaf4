//! Operations on Markdown that concern neither links nor reference
//! definitions: the Rust code blocks of a document, and the `#include`
//! directives left in it.

pub mod extract_code;
pub mod remove_includes;

use vstd::prelude::*;

verus! {

/// A pattern of this library is no regular expression to the engine that
/// reads it.
#[derive(Clone, Copy, Debug, PartialEq, Eq, Structural)]
pub struct InvalidPattern;

/// A Markdown file: where it is, and what it holds.
#[derive(Clone, Debug)]
pub struct MarkdownFile {
    pub path: String,
    pub contents: String,
}

/// What a [`MarkdownFile`] holds, as mathematical values.
pub struct MarkdownFileView {
    pub path: Seq<char>,
    pub contents: Seq<char>,
}

impl View for MarkdownFile {
    type V = MarkdownFileView;

    open spec fn view(&self) -> MarkdownFileView {
        MarkdownFileView { path: self.path@, contents: self.contents@ }
    }
}

/// The views of the files of a list, in order.
pub open spec fn file_views(files: Seq<MarkdownFile>) -> Seq<MarkdownFileView> {
    files.map_values(|f: MarkdownFile| f@)
}

} // verus!
