//! Reading a reference definition back from the line that defines it.

use vstd::prelude::*;
use vstd::string::*;
use crate::link::model::LinkView;
use crate::link::render::title_segment;
use crate::link::write::{reference_style, written};
use crate::parser::{RefDef, RefDefView};
use crate::text::{chars_of, find_char, index_of_char, lemma_index_of_char, substring};

verus! {

/// The definition that a line holds, if it is written as
/// `[label]: destination` or `[label]: destination "title"`: the label
/// runs up to the first `]`, the destination up to the first space, and
/// the title from the quote that follows that space to the quote that
/// ends the line.
pub open spec fn parsed_definition(line: Seq<char>) -> Option<RefDefView> {
    if line.len() == 0 || line[0] != '[' {
        None
    } else {
        let close = index_of_char(line, ']', 1);
        if close + 2 >= line.len() || line[close + 1] != ':' || line[close + 2] != ' ' {
            None
        } else {
            let start = close + 3;
            let end = index_of_char(line, ' ', start);
            let label = line.subrange(1, close);
            let dest = line.subrange(start, end);
            if end == line.len() {
                Some(RefDefView { label, dest, title: None })
            } else if end + 2 < line.len() && line[end + 1] == '"' && line.last() == '"' {
                Some(
                    RefDefView {
                        label,
                        dest,
                        title: Some(line.subrange(end + 2, line.len() - 1)),
                    },
                )
            } else {
                None
            }
        }
    }
}

/// The view of an optional definition.
pub open spec fn definition_view(def: Option<RefDef>) -> Option<RefDefView> {
    match def {
        Some(def) => Some(def@),
        None => None,
    }
}

/// Reads a reference definition from the line that defines it. A line of
/// another shape is refused.
pub fn parse_reference_definition(line: &str) -> (def: Option<RefDef>)
    ensures
        definition_view(def) == parsed_definition(line@),
{
    let chars = chars_of(line);
    let len = chars.len();
    if len == 0 || chars[0] != '[' {
        return None;
    }
    let close = find_char(&chars, ']', 1);
    if len < 3 || close >= len - 2 || chars[close + 1] != ':' || chars[close + 2] != ' ' {
        return None;
    }
    let start = close + 3;
    let end = find_char(&chars, ' ', start);
    let label = substring(&chars, 1, close);
    let dest = substring(&chars, start, end);
    if end == len {
        Some(RefDef { label, dest, title: None })
    } else if len >= 3 && end < len - 2 && chars[end + 1] == '"' && chars[len - 1] == '"' {
        let title = substring(&chars, end + 2, len - 1);
        Some(RefDef { label, dest, title: Some(title) })
    } else {
        None
    }
}

/// The character stands nowhere in the text.
pub open spec fn is_free_of(text: Seq<char>, c: char) -> bool {
    forall|i: int| 0 <= i < text.len() ==> text[i] != c
}

/// What comes back of a link: its label, its destination and its title.
pub open spec fn definition_of(link: LinkView) -> RefDefView {
    RefDefView {
        label: link.label,
        dest: link.url,
        title: match link.title {
            Some(title) => if title.len() > 0 {
                Some(title)
            } else {
                None
            },
            None => None,
        },
    }
}

/// Writing a link as a reference link and its definition, then reading
/// the definition back from its line, gives the label and the destination
/// of the link again, and its title. This holds of a label without `]`
/// and a destination without a space: the line of any other link reads
/// as another definition, or as none.
pub proof fn lemma_definition_round_trip(link: LinkView)
    requires
        is_free_of(link.label, ']'),
        is_free_of(link.url, ' '),
    ensures
        written(link, reference_style()) == link.reference_link() + "\n"@ + "\n"@
            + link.reference_definition() + "\n"@,
        parsed_definition(link.reference_definition()) == Some(definition_of(link)),
{
    reveal_strlit("[");
    reveal_strlit("]: ");
    reveal_strlit(" \"");
    reveal_strlit("\"");
    let line = link.reference_definition();
    let label = link.label;
    let url = link.url;
    let segment = title_segment(link.title);
    let close: int = label.len() as int + 1;
    let start: int = close + 3;
    let end: int = start + url.len();
    assert(line =~= "["@ + label + "]: "@ + url + segment);
    assert(line.len() == end + segment.len());
    assert(line[0] == '[');
    assert(forall|i: int| 1 <= i < close ==> line[i] == label[i - 1]);
    assert(line[close] == ']');
    assert(line[close + 1] == ':');
    assert(line[close + 2] == ' ');
    assert(forall|i: int| start <= i < end ==> line[i] == url[i - start]);
    lemma_index_of_char(line, ']', 1, close);
    assert(line.subrange(1, close) =~= label);
    assert(line.subrange(start, end) =~= url);
    if segment.len() == 0 {
        lemma_index_of_char(line, ' ', start, end);
    } else {
        let title = link.title.unwrap();
        assert(segment =~= " \""@ + title + "\""@);
        assert(line[end] == ' ');
        assert(line[end + 1] == '"');
        assert(line.last() == '"');
        lemma_index_of_char(line, ' ', start, end);
        assert(line.subrange(end + 2, line.len() - 1) =~= title);
    }
    assert(written(link, reference_style()) =~= link.reference_link() + "\n"@ + "\n"@
        + link.reference_definition() + "\n"@);
}

} // verus!
