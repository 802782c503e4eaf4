//! Regular expressions, as the `regex` crate reads and applies them.
//!
//! What a regular expression matches is not stated here: each result has
//! a name, and the contracts of the library speak of the names.

use vstd::prelude::*;
use crate::link::model::text_view;
use crate::order::keys;

verus! {

/// Whether the regular expression `pattern` matches somewhere in `text`;
/// `None` where `pattern` is no regular expression.
pub uninterp spec fn regex_is_match(pattern: Seq<char>, text: Seq<char>) -> Option<bool>;

/// `text` with the first match of the regular expression `pattern`
/// replaced by `replacement`, in which `$name` and `${name}` stand for
/// what the group `name` captured; `None` where `pattern` is no regular
/// expression.
pub uninterp spec fn regex_replaced(
    pattern: Seq<char>,
    text: Seq<char>,
    replacement: Seq<char>,
) -> Option<Seq<char>>;

/// `text` with each match of the regular expression `pattern` replaced by
/// `replacement`, in which `$name` and `${name}` stand for what the group
/// `name` captured; `None` where `pattern` is no regular expression.
pub uninterp spec fn regex_replaced_all(
    pattern: Seq<char>,
    text: Seq<char>,
    replacement: Seq<char>,
) -> Option<Seq<char>>;

/// For each match of the regular expression `pattern` in `text`, in
/// order, what its group of index `group` captured, `None` where the
/// group took no part in the match; the group of index 0 is the whole
/// match. `None` where `pattern` is no regular expression.
pub uninterp spec fn regex_captured(pattern: Seq<char>, text: Seq<char>, group: usize) -> Option<
    Seq<Option<Seq<char>>>,
>;

/// The views of what a group captured in each match.
pub open spec fn group_views(groups: Seq<Option<String>>) -> Seq<Option<Seq<char>>> {
    groups.map_values(|g: Option<String>| text_view(g))
}

/// The views of what a group captured in each match, if the pattern is a
/// regular expression.
pub open spec fn groups_view(groups: Option<Vec<Option<String>>>) -> Option<
    Seq<Option<Seq<char>>>,
> {
    match groups {
        Some(groups) => Some(group_views(groups@)),
        None => None,
    }
}

/// What a group captured: the empty text where it took no part in the
/// match.
pub open spec fn captured_text(group: Option<Seq<char>>) -> Seq<char> {
    match group {
        Some(text) => text,
        None => Seq::empty(),
    }
}

/// What a group captured in each match, in order: the empty text where it
/// took no part in a match.
pub open spec fn captured_texts(groups: Seq<Option<Seq<char>>>) -> Seq<Seq<char>> {
    groups.map_values(|g: Option<Seq<char>>| captured_text(g))
}

/// `Regex::new` of the `regex` crate on `pattern`, then `Regex::is_match`
/// on `text`. The result depends on `pattern` and `text` alone.
#[verifier::external_body]
pub(crate) fn is_match(pattern: &str, text: &str) -> (r: Option<bool>)
    ensures
        r == regex_is_match(pattern@, text@),
{
    regex::Regex::new(pattern).ok().map(|re| re.is_match(text))
}

/// `Regex::new` of the `regex` crate on `pattern`, then `Regex::replace`
/// on `text` with `replacement`. The result depends on the three strings
/// alone.
#[verifier::external_body]
pub(crate) fn replace(pattern: &str, text: &str, replacement: &str) -> (r: Option<String>)
    ensures
        text_view(r) == regex_replaced(pattern@, text@, replacement@),
{
    regex::Regex::new(pattern).ok().map(|re| re.replace(text, replacement).into_owned())
}

/// `Regex::new` of the `regex` crate on `pattern`, then
/// `Regex::replace_all` on `text` with `replacement`. The result depends
/// on the three strings alone.
#[verifier::external_body]
pub(crate) fn replace_each(pattern: &str, text: &str, replacement: &str) -> (r: Option<String>)
    ensures
        text_view(r) == regex_replaced_all(pattern@, text@, replacement@),
{
    regex::Regex::new(pattern).ok().map(|re| re.replace_all(text, replacement).into_owned())
}

/// `Regex::new` of the `regex` crate on `pattern`, then
/// `Regex::captures_iter` on `text`, walked to its end; of each match,
/// `Captures::get` hands out the group of index `group`, as the text it
/// captured, if it took part. The result depends on the arguments alone.
#[verifier::external_body]
pub(crate) fn captured(pattern: &str, text: &str, group: usize) -> (r: Option<
    Vec<Option<String>>,
>)
    ensures
        groups_view(r) == regex_captured(pattern@, text@, group),
{
    regex::Regex::new(pattern).ok().map(|re| {
        re.captures_iter(text).map(|c| c.get(group).map(|m| m.as_str().to_string())).collect()
    })
}

/// What a group captured in each match, in order, as texts: the empty
/// text where the group took no part in a match.
pub fn texts_of(groups: Vec<Option<String>>) -> (texts: Vec<String>)
    ensures
        keys(texts@) == captured_texts(group_views(groups@)),
{
    broadcast use vstd::std_specs::vec::axiom_spec_into_iter;

    let ghost all = captured_texts(group_views(groups@));
    let mut texts: Vec<String> = Vec::new();
    assert(keys(texts@) =~= all.take(0));
    for group in it: groups
        invariant
            all == captured_texts(group_views(it.seq())),
            keys(texts@) == all.take(it.index() as int),
    {
        let ghost before = keys(texts@);
        let text = match group {
            Some(text) => text,
            None => String::new(),
        };
        texts.push(text);
        assert(keys(texts@) =~= before.push(text@));
        assert(keys(texts@) =~= all.take(it.index() + 1));
    }
    assert(all.take(all.len() as int) =~= all);
    texts
}

} // verus!
