//! The Rust code blocks of Markdown documents: taking them out into files
//! of their own, and putting `#include` directives in their place.

use vstd::prelude::*;
use vstd::string::*;
use crate::markdown::{file_views, InvalidPattern, MarkdownFile, MarkdownFileView};
use crate::order::keys;
use crate::patterns::{
    captured, captured_texts, is_match, regex_captured, regex_is_match, regex_replaced_all,
    replace_each, texts_of,
};
use crate::text::{push_all, chars_of, string_of};

verus! {

/// The regular expression that finds a fenced block of Rust code; its
/// first group is the code.
pub open spec fn code_block_pattern() -> Seq<char> {
    "(?s)```rust.*?\\n(?<code>.*?)```"@
}

/// The regular expression that finds a line of code that the book hides:
/// one that starts with `#` and a blank.
pub open spec fn hidden_line_pattern() -> Seq<char> {
    "(?m)^(?:#\\s)(?<rest>.*)$"@
}

/// The regular expression that finds a fenced block of Rust code that
/// holds code; its groups are the opening fence, the code and the closing
/// fence.
pub open spec fn full_block_pattern() -> Seq<char> {
    "(?s)(?<first>```rust.*?\\n)(?<code>.+?)(?<last>```)"@
}

/// The digit of a number below ten.
pub open spec fn digit(d: nat) -> char {
    if d == 0 {
        '0'
    } else if d == 1 {
        '1'
    } else if d == 2 {
        '2'
    } else if d == 3 {
        '3'
    } else if d == 4 {
        '4'
    } else if d == 5 {
        '5'
    } else if d == 6 {
        '6'
    } else if d == 7 {
        '7'
    } else if d == 8 {
        '8'
    } else {
        '9'
    }
}

/// A number written in decimal.
pub open spec fn decimal(n: nat) -> Seq<char>
    decreases n,
{
    if n < 10 {
        seq![digit(n)]
    } else {
        decimal(n / 10).push(digit(n % 10))
    }
}

/// The name of the file of the code block of index `number` of a
/// document named `stem`: the first block has no number.
pub open spec fn code_name(stem: Seq<char>, number: nat) -> Seq<char> {
    if number == 0 {
        stem + ".rs"@
    } else {
        stem + decimal(number) + ".rs"@
    }
}

/// Appends `n`, written in decimal, to `out`.
pub fn push_decimal(out: &mut Vec<char>, n: usize)
    ensures
        final(out)@ == old(out)@ + decimal(n as nat),
    decreases n,
{
    if n >= 10 {
        push_decimal(out, n / 10);
    }
    let d = n % 10;
    let c = if d == 0 {
        '0'
    } else if d == 1 {
        '1'
    } else if d == 2 {
        '2'
    } else if d == 3 {
        '3'
    } else if d == 4 {
        '4'
    } else if d == 5 {
        '5'
    } else if d == 6 {
        '6'
    } else if d == 7 {
        '7'
    } else if d == 8 {
        '8'
    } else {
        '9'
    };
    out.push(c);
    assert(out@ =~= old(out)@ + decimal(n as nat));
}

/// The name of the file of the code block of index `number` of a
/// document named `stem`.
pub fn code_file_name(stem: &str, number: usize) -> (name: String)
    ensures
        name@ == code_name(stem@, number as nat),
{
    let mut name = chars_of(stem);
    if number != 0 {
        push_decimal(&mut name, number);
    }
    let extension = chars_of(".rs");
    push_all(&mut name, &extension);
    string_of(&name)
}

/// The code of each block of Rust code of `blocks`, with the marks of
/// hidden lines taken off.
pub open spec fn revealed(blocks: Seq<Seq<char>>) -> Result<Seq<Seq<char>>, InvalidPattern>
    decreases blocks.len(),
{
    if blocks.len() == 0 {
        Ok(Seq::empty())
    } else {
        match revealed(blocks.drop_last()) {
            Err(e) => Err(e),
            Ok(codes) => match regex_replaced_all(hidden_line_pattern(), blocks.last(), "$rest"@) {
                None => Err(InvalidPattern),
                Some(code) => Ok(codes.push(code)),
            },
        }
    }
}

/// The code examples of a document: the code of each of its blocks of
/// Rust code, in order, with the marks of hidden lines taken off.
pub open spec fn code_examples_of(markdown: Seq<char>) -> Result<Seq<Seq<char>>, InvalidPattern> {
    match regex_captured(code_block_pattern(), markdown, 1) {
        None => Err(InvalidPattern),
        Some(blocks) => revealed(captured_texts(blocks)),
    }
}

/// The view of a list of strings, or of the error.
pub open spec fn codes_view(r: Result<Vec<String>, InvalidPattern>) -> Result<
    Seq<Seq<char>>,
    InvalidPattern,
> {
    match r {
        Ok(codes) => Ok(keys(codes@)),
        Err(e) => Err(e),
    }
}

/// Once a block is refused, the whole list is.
proof fn lemma_revealed_error_stays(blocks: Seq<Seq<char>>, n: int)
    requires
        0 <= n <= blocks.len(),
        revealed(blocks.take(n)) is Err,
    ensures
        revealed(blocks) == revealed(blocks.take(n)),
    decreases blocks.len() - n,
{
    if n == blocks.len() {
        assert(blocks.take(n) =~= blocks);
    } else {
        assert(blocks.take(n + 1).drop_last() =~= blocks.take(n));
        lemma_revealed_error_stays(blocks, n + 1);
    }
}

/// The code examples of a Markdown document: the code of each of its
/// blocks of Rust code, in order. The `# ` that hides a line in the book
/// is taken off the line.
pub fn code_examples(markdown: &str) -> (r: Result<Vec<String>, InvalidPattern>)
    ensures
        codes_view(r) == code_examples_of(markdown@),
{
    let blocks = match captured("(?s)```rust.*?\\n(?<code>.*?)```", markdown, 1) {
        None => {
            return Err(InvalidPattern);
        },
        Some(blocks) => texts_of(blocks),
    };
    let ghost all = keys(blocks@);
    let mut codes: Vec<String> = Vec::new();
    let mut i: usize = 0;
    assert(all.take(0) =~= Seq::<Seq<char>>::empty());
    assert(keys(codes@) =~= Seq::<Seq<char>>::empty());
    while i < blocks.len()
        invariant
            i <= blocks.len(),
            all == keys(blocks@),
            code_examples_of(markdown@) == revealed(all),
            revealed(all.take(i as int)) == Ok::<Seq<Seq<char>>, InvalidPattern>(keys(codes@)),
        decreases blocks.len() - i,
    {
        let ghost next = all.take(i + 1);
        assert(next.drop_last() =~= all.take(i as int));
        assert(next.last() == blocks@[i as int]@);
        let ghost before = keys(codes@);
        match replace_each("(?m)^(?:#\\s)(?<rest>.*)$", blocks[i].as_str(), "$rest") {
            None => {
                proof {
                    lemma_revealed_error_stays(all, i + 1);
                }
                return Err(InvalidPattern);
            },
            Some(code) => {
                codes.push(code);
                assert(keys(codes@) =~= before.push(code@));
            },
        }
        i += 1;
    }
    assert(all.take(blocks.len() as int) =~= all);
    Ok(codes)
}

/// A Markdown document from which code is taken: the stem of its file
/// name, and what it holds.
#[derive(Clone, Debug)]
pub struct SourceFile {
    pub stem: String,
    pub contents: String,
}

/// What a [`SourceFile`] holds, as mathematical values.
pub struct SourceFileView {
    pub stem: Seq<char>,
    pub contents: Seq<char>,
}

impl View for SourceFile {
    type V = SourceFileView;

    open spec fn view(&self) -> SourceFileView {
        SourceFileView { stem: self.stem@, contents: self.contents@ }
    }
}

/// A file of code taken out of a document: its name, and the code.
#[derive(Clone, Debug)]
pub struct CodeFile {
    pub name: String,
    pub code: String,
}

/// What a [`CodeFile`] holds, as mathematical values.
pub struct CodeFileView {
    pub name: Seq<char>,
    pub code: Seq<char>,
}

impl View for CodeFile {
    type V = CodeFileView;

    open spec fn view(&self) -> CodeFileView {
        CodeFileView { name: self.name@, code: self.code@ }
    }
}

/// The views of the code files of a list, in order.
pub open spec fn code_file_views(files: Seq<CodeFile>) -> Seq<CodeFileView> {
    files.map_values(|f: CodeFile| f@)
}

/// The views of the documents of a list, in order.
pub open spec fn source_views(files: Seq<SourceFile>) -> Seq<SourceFileView> {
    files.map_values(|f: SourceFile| f@)
}

/// The code files of the examples `codes` of a document named `stem`:
/// each example in a file named after the document and the index of the
/// example.
pub open spec fn named(stem: Seq<char>, codes: Seq<Seq<char>>) -> Seq<CodeFileView> {
    Seq::new(codes.len(), |i: int| CodeFileView { name: code_name(stem, i as nat), code: codes[i] })
}

/// The code files of the documents of `files`, in order.
pub open spec fn code_files_of(files: Seq<SourceFileView>) -> Result<
    Seq<CodeFileView>,
    InvalidPattern,
>
    decreases files.len(),
{
    if files.len() == 0 {
        Ok(Seq::empty())
    } else {
        match code_files_of(files.drop_last()) {
            Err(e) => Err(e),
            Ok(found) => match code_examples_of(files.last().contents) {
                Err(e) => Err(e),
                Ok(codes) => Ok(found + named(files.last().stem, codes)),
            },
        }
    }
}

/// The view of a list of code files, or of the error.
pub open spec fn code_files_view(r: Result<Vec<CodeFile>, InvalidPattern>) -> Result<
    Seq<CodeFileView>,
    InvalidPattern,
> {
    match r {
        Ok(files) => Ok(code_file_views(files@)),
        Err(e) => Err(e),
    }
}

/// Once a document is refused, the whole list is.
proof fn lemma_code_files_error_stays(files: Seq<SourceFileView>, n: int)
    requires
        0 <= n <= files.len(),
        code_files_of(files.take(n)) is Err,
    ensures
        code_files_of(files) == code_files_of(files.take(n)),
    decreases files.len() - n,
{
    if n == files.len() {
        assert(files.take(n) =~= files);
    } else {
        assert(files.take(n + 1).drop_last() =~= files.take(n));
        lemma_code_files_error_stays(files, n + 1);
    }
}

/// Appends to `out` the code files of the examples `codes` of a document
/// named `stem`.
pub fn push_named(out: &mut Vec<CodeFile>, stem: &str, codes: Vec<String>)
    ensures
        code_file_views(final(out)@) == code_file_views(old(out)@) + named(stem@, keys(codes@)),
{
    broadcast use vstd::std_specs::vec::axiom_spec_into_iter;

    let ghost all = keys(codes@);
    let ghost start = code_file_views(out@);
    let count = codes.len();
    let mut number: usize = 0;
    assert(code_file_views(out@) =~= start + named(stem@, all.take(0)));
    for code in it: codes
        invariant
            all == keys(it.seq()),
            all.len() == count,
            number == it.index(),
            code_file_views(out@) == start + named(stem@, all.take(it.index() as int)),
    {
        let ghost n = it.index() as int;
        let ghost before = code_file_views(out@);
        let file = CodeFile { name: code_file_name(stem, number), code };
        out.push(file);
        assert(code_file_views(out@) =~= before.push(file@));
        assert(all.take(n + 1)[n] == code@);
        assert(named(stem@, all.take(n + 1)) =~= named(stem@, all.take(n)).push(file@));
        assert(code_file_views(out@) =~= start + named(stem@, all.take(n + 1)));
        number = number + 1;
    }
    assert(all.take(all.len() as int) =~= all);
}

/// Takes the code examples out of each Markdown document of `files`.
/// Returns them as files, in the order of the documents and of the
/// examples in them: the examples of a document are named after it, the
/// first without a number and those after it with their index.
pub fn extract_code_from_all_markdown_files_in(files: &Vec<SourceFile>) -> (r: Result<
    Vec<CodeFile>,
    InvalidPattern,
>)
    ensures
        code_files_view(r) == code_files_of(source_views(files@)),
{
    let ghost all = source_views(files@);
    let mut out: Vec<CodeFile> = Vec::new();
    let mut i: usize = 0;
    assert(all.take(0) =~= Seq::<SourceFileView>::empty());
    assert(code_file_views(out@) =~= Seq::<CodeFileView>::empty());
    while i < files.len()
        invariant
            i <= files.len(),
            all == source_views(files@),
            code_files_of(all.take(i as int)) == Ok::<Seq<CodeFileView>, InvalidPattern>(
                code_file_views(out@),
            ),
        decreases files.len() - i,
    {
        let ghost next = all.take(i + 1);
        assert(next.drop_last() =~= all.take(i as int));
        assert(next.last() == files@[i as int]@);
        match code_examples(files[i].contents.as_str()) {
            Err(e) => {
                proof {
                    lemma_code_files_error_stays(all, i + 1);
                }
                return Err(e);
            },
            Ok(codes) => {
                push_named(&mut out, files[i].stem.as_str(), codes);
            },
        }
        i += 1;
    }
    assert(all.take(files.len() as int) =~= all);
    Ok(out)
}

/// What stands in the place of the code of a block: the directive that
/// includes the file `code_path` with the extension `.rs`, on a line of
/// its own between the fences of the block.
pub open spec fn include_replacement(code_path: Seq<char>) -> Seq<char> {
    "$first{{#include "@ + code_path + ".rs}}\n$last"@
}

/// What [`replace_code_by_include`] makes of a document: the document with
/// the directive in place of the code of each block, if it holds a block
/// with code.
pub open spec fn code_replaced(markdown: Seq<char>, code_path: Seq<char>) -> Result<
    Option<Seq<char>>,
    InvalidPattern,
> {
    match regex_is_match(full_block_pattern(), markdown) {
        None => Err(InvalidPattern),
        Some(false) => Ok(None),
        Some(true) => match regex_replaced_all(
            full_block_pattern(),
            markdown,
            include_replacement(code_path),
        ) {
            None => Err(InvalidPattern),
            Some(text) => Ok(Some(text)),
        },
    }
}

/// Replaces the code of each block of Rust code of `markdown` by the
/// directive `{{#include code_path.rs}}`. Returns the new text, or `None`
/// where `markdown` has no block that holds code.
pub fn replace_code_by_include(markdown: &str, code_path: &str) -> (r: Result<
    Option<String>,
    InvalidPattern,
>)
    ensures
        crate::markdown::remove_includes::change_view(r) == code_replaced(markdown@, code_path@),
{
    let pattern = "(?s)(?<first>```rust.*?\\n)(?<code>.+?)(?<last>```)";
    match is_match(pattern, markdown) {
        None => Err(InvalidPattern),
        Some(false) => Ok(None),
        Some(true) => {
            let mut replacement = String::from_str("$first{{#include ");
            replacement.append(code_path);
            replacement.append(".rs}}\n$last");
            match replace_each(pattern, markdown, replacement.as_str()) {
                None => Err(InvalidPattern),
                Some(text) => Ok(Some(text)),
            }
        },
    }
}

/// A Markdown file whose code is to stand in a file of its own.
#[derive(Clone, Debug)]
pub struct FileWithCode {
    /// The Markdown file.
    pub file: MarkdownFile,
    /// The file that holds its code, without the extension `.rs`.
    pub code_path: String,
}

/// What a [`FileWithCode`] holds, as mathematical values.
pub struct FileWithCodeView {
    pub file: MarkdownFileView,
    pub code_path: Seq<char>,
}

impl View for FileWithCode {
    type V = FileWithCodeView;

    open spec fn view(&self) -> FileWithCodeView {
        FileWithCodeView { file: self.file@, code_path: self.code_path@ }
    }
}

/// The views of the files of a list, in order.
pub open spec fn file_with_code_views(files: Seq<FileWithCode>) -> Seq<FileWithCodeView> {
    files.map_values(|f: FileWithCode| f@)
}

/// What [`remove_code_from_all_markdown_files_in`] makes of a list of
/// files: the files that hold a block with code, in order, with their new
/// contents.
pub open spec fn all_code_replaced(files: Seq<FileWithCodeView>) -> Result<
    Seq<MarkdownFileView>,
    InvalidPattern,
>
    decreases files.len(),
{
    if files.len() == 0 {
        Ok(Seq::empty())
    } else {
        match all_code_replaced(files.drop_last()) {
            Err(e) => Err(e),
            Ok(changed) => match code_replaced(files.last().file.contents, files.last().code_path) {
                Err(e) => Err(e),
                Ok(None) => Ok(changed),
                Ok(Some(text)) => Ok(
                    changed.push(
                        MarkdownFileView { path: files.last().file.path, contents: text },
                    ),
                ),
            },
        }
    }
}

/// Once a file is refused, the whole list is.
proof fn lemma_code_replaced_error_stays(files: Seq<FileWithCodeView>, n: int)
    requires
        0 <= n <= files.len(),
        all_code_replaced(files.take(n)) is Err,
    ensures
        all_code_replaced(files) == all_code_replaced(files.take(n)),
    decreases files.len() - n,
{
    if n == files.len() {
        assert(files.take(n) =~= files);
    } else {
        assert(files.take(n + 1).drop_last() =~= files.take(n));
        lemma_code_replaced_error_stays(files, n + 1);
    }
}

/// Replaces, in each Markdown file of `files`, the code of the blocks of
/// Rust code by a directive that includes the file that holds the code.
/// Returns the files that are changed by that, with their new contents.
pub fn remove_code_from_all_markdown_files_in(files: &Vec<FileWithCode>) -> (r: Result<
    Vec<MarkdownFile>,
    InvalidPattern,
>)
    ensures
        crate::markdown::remove_includes::files_view(r) == all_code_replaced(
            file_with_code_views(files@),
        ),
{
    let ghost all = file_with_code_views(files@);
    let mut modified: Vec<MarkdownFile> = Vec::new();
    let mut i: usize = 0;
    assert(all.take(0) =~= Seq::<FileWithCodeView>::empty());
    assert(file_views(modified@) =~= Seq::<MarkdownFileView>::empty());
    while i < files.len()
        invariant
            i <= files.len(),
            all == file_with_code_views(files@),
            all_code_replaced(all.take(i as int)) == Ok::<Seq<MarkdownFileView>, InvalidPattern>(
                file_views(modified@),
            ),
        decreases files.len() - i,
    {
        let ghost next = all.take(i + 1);
        assert(next.drop_last() =~= all.take(i as int));
        assert(next.last() == files@[i as int]@);
        let ghost before = file_views(modified@);
        match replace_code_by_include(
            files[i].file.contents.as_str(),
            files[i].code_path.as_str(),
        ) {
            Err(e) => {
                proof {
                    lemma_code_replaced_error_stays(all, i + 1);
                }
                return Err(e);
            },
            Ok(None) => {},
            Ok(Some(text)) => {
                let file = MarkdownFile { path: files[i].file.path.clone(), contents: text };
                modified.push(file);
                assert(file_views(modified@) =~= before.push(file@));
            },
        }
        i += 1;
    }
    assert(all.take(files.len() as int) =~= all);
    Ok(modified)
}

} // verus!
