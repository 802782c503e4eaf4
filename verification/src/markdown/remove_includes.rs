//! Removing the `{{#include file}}` directives that are left in Markdown.

use vstd::prelude::*;
use vstd::string::*;
use crate::markdown::{file_views, InvalidPattern, MarkdownFile, MarkdownFileView};
use crate::patterns::{
    captured, captured_texts, is_match, regex_captured, regex_is_match, texts_of,
};
use crate::text::{replace_all, replaced};

verus! {

/// The regular expression that finds `{{#include file}}`.
pub open spec fn include_pattern() -> Seq<char> {
    "\\{\\{#include.*?\\}\\}"@
}

/// `text` in which each directive of `includes`, taken in order, is
/// replaced by `contents` wherever it stands.
pub open spec fn without(text: Seq<char>, includes: Seq<Seq<char>>, contents: Seq<char>) -> Seq<
    char,
>
    decreases includes.len(),
{
    if includes.len() == 0 {
        text
    } else {
        replaced(without(text, includes.drop_last(), contents), includes.last(), contents)
    }
}

/// What [`remove_includes`] makes of a text: the text with `contents` in
/// place of its directives, if it holds any and is changed by that.
pub open spec fn includes_removed(text: Seq<char>, contents: Seq<char>) -> Result<
    Option<Seq<char>>,
    InvalidPattern,
> {
    match regex_is_match(include_pattern(), text) {
        None => Err(InvalidPattern),
        Some(false) => Ok(None),
        Some(true) => match regex_captured(include_pattern(), text, 0) {
            None => Err(InvalidPattern),
            Some(matches) => if without(text, captured_texts(matches), contents) == text {
                Ok(None)
            } else {
                Ok(Some(without(text, captured_texts(matches), contents)))
            },
        },
    }
}

/// The view of what [`remove_includes`] returns.
pub open spec fn change_view(r: Result<Option<String>, InvalidPattern>) -> Result<
    Option<Seq<char>>,
    InvalidPattern,
> {
    match r {
        Ok(Some(text)) => Ok(Some(text@)),
        Ok(None) => Ok(None),
        Err(e) => Err(e),
    }
}

/// Replaces each directive of `includes`, in order, by `contents`
/// wherever it stands in `text`.
pub fn replace_includes(text: &str, includes: &Vec<String>, contents: &str) -> (r: String)
    ensures
        r@ == without(text@, crate::order::keys(includes@), contents@),
{
    let ghost all = crate::order::keys(includes@);
    let mut out = text.to_owned();
    let mut i: usize = 0;
    assert(all.take(0) =~= Seq::<Seq<char>>::empty());
    while i < includes.len()
        invariant
            i <= includes.len(),
            all == crate::order::keys(includes@),
            out@ == without(text@, all.take(i as int), contents@),
        decreases includes.len() - i,
    {
        let ghost next = all.take(i + 1);
        assert(next.drop_last() =~= all.take(i as int));
        assert(next.last() == includes@[i as int]@);
        out = replace_all(out.as_str(), includes[i].as_str(), contents);
        i += 1;
    }
    assert(all.take(includes.len() as int) =~= all);
    out
}

/// Removes the `{{#include file}}` directives of `text`, putting
/// `contents` in the place of each. Returns the new text, or `None` where
/// `text` holds no directive or is not changed.
pub fn remove_includes(text: &str, contents: &str) -> (r: Result<Option<String>, InvalidPattern>)
    ensures
        change_view(r) == includes_removed(text@, contents@),
{
    match is_match("\\{\\{#include.*?\\}\\}", text) {
        None => Err(InvalidPattern),
        Some(false) => Ok(None),
        Some(true) => match captured("\\{\\{#include.*?\\}\\}", text, 0) {
            None => Err(InvalidPattern),
            Some(matches) => {
                let includes = texts_of(matches);
                let new_text = replace_includes(text, &includes, contents);
                match crate::order::compare(new_text.as_str(), text) {
                    crate::order::Order::Same => Ok(None),
                    _ => Ok(Some(new_text)),
                }
            },
        },
    }
}

/// What [`remove_includes_in_all_markdown_files_in`] makes of a list of
/// files: the files that are changed, in order, with their new contents.
pub open spec fn all_includes_removed(files: Seq<MarkdownFileView>, contents: Seq<char>) -> Result<
    Seq<MarkdownFileView>,
    InvalidPattern,
>
    decreases files.len(),
{
    if files.len() == 0 {
        Ok(Seq::empty())
    } else {
        match all_includes_removed(files.drop_last(), contents) {
            Err(e) => Err(e),
            Ok(changed) => match includes_removed(files.last().contents, contents) {
                Err(e) => Err(e),
                Ok(None) => Ok(changed),
                Ok(Some(text)) => Ok(
                    changed.push(MarkdownFileView { path: files.last().path, contents: text }),
                ),
            },
        }
    }
}

/// The view of a list of files, or of the error.
pub open spec fn files_view(r: Result<Vec<MarkdownFile>, InvalidPattern>) -> Result<
    Seq<MarkdownFileView>,
    InvalidPattern,
> {
    match r {
        Ok(files) => Ok(file_views(files@)),
        Err(e) => Err(e),
    }
}

/// Once a file is refused, the whole list is.
proof fn lemma_error_stays(files: Seq<MarkdownFileView>, contents: Seq<char>, n: int)
    requires
        0 <= n <= files.len(),
        all_includes_removed(files.take(n), contents) is Err,
    ensures
        all_includes_removed(files, contents) == all_includes_removed(files.take(n), contents),
    decreases files.len() - n,
{
    if n == files.len() {
        assert(files.take(n) =~= files);
    } else {
        assert(files.take(n + 1).drop_last() =~= files.take(n));
        lemma_error_stays(files, contents, n + 1);
    }
}

/// Removes the `{{#include file}}` directives that are left in the
/// Markdown files of `files`, putting `contents_to_insert` in the place
/// of each. Returns the files that are changed by that, with their new
/// contents.
pub fn remove_includes_in_all_markdown_files_in(
    files: &Vec<MarkdownFile>,
    contents_to_insert: &str,
) -> (r: Result<Vec<MarkdownFile>, InvalidPattern>)
    ensures
        files_view(r) == all_includes_removed(file_views(files@), contents_to_insert@),
{
    let ghost all = file_views(files@);
    let mut modified: Vec<MarkdownFile> = Vec::new();
    let mut i: usize = 0;
    assert(all.take(0) =~= Seq::<MarkdownFileView>::empty());
    assert(file_views(modified@) =~= Seq::<MarkdownFileView>::empty());
    while i < files.len()
        invariant
            i <= files.len(),
            all == file_views(files@),
            all_includes_removed(all.take(i as int), contents_to_insert@) == Ok::<
                Seq<MarkdownFileView>,
                InvalidPattern,
            >(file_views(modified@)),
        decreases files.len() - i,
    {
        let ghost next = all.take(i + 1);
        assert(next.drop_last() =~= all.take(i as int));
        assert(next.last() == files@[i as int]@);
        let ghost before = file_views(modified@);
        match remove_includes(files[i].contents.as_str(), contents_to_insert) {
            Err(e) => {
                proof {
                    lemma_error_stays(all, contents_to_insert@, i + 1);
                }
                return Err(e);
            },
            Ok(None) => {},
            Ok(Some(text)) => {
                let file = MarkdownFile { path: files[i].path.clone(), contents: text };
                modified.push(file);
                assert(file_views(modified@) =~= before.push(file@));
            },
        }
        i += 1;
    }
    assert(all.take(files.len() as int) =~= all);
    Ok(modified)
}

} // verus!
