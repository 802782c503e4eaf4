//! The sitemap document: XML in UTF-8, indented by two spaces.

use vstd::prelude::*;
use vstd::string::*;
use crate::order::keys;

verus! {

/// What stands for a character in XML text: the entity for `<`, `>`,
/// `&`, `'`, `"` and the carriage return, the character itself otherwise.
pub open spec fn escaped_char(c: char) -> Seq<char> {
    if c == '<' {
        "&lt;"@
    } else if c == '>' {
        "&gt;"@
    } else if c == '&' {
        "&amp;"@
    } else if c == '\'' {
        "&apos;"@
    } else if c == '"' {
        "&quot;"@
    } else if c == '\r' {
        "&#13;"@
    } else {
        seq![c]
    }
}

/// `text` with each character escaped for XML.
pub open spec fn escaped(text: Seq<char>) -> Seq<char>
    decreases text.len(),
{
    if text.len() == 0 {
        Seq::empty()
    } else {
        escaped(text.drop_last()) + escaped_char(text.last())
    }
}

/// The element of one page, on three lines, each after a line break.
pub open spec fn url_element(url: Seq<char>) -> Seq<char> {
    "\n  <url>\n    <loc>"@ + escaped(url) + "</loc>\n  </url>"@
}

/// The elements of the pages of `urls`, in order.
pub open spec fn url_elements(urls: Seq<Seq<char>>) -> Seq<char>
    decreases urls.len(),
{
    if urls.len() == 0 {
        Seq::empty()
    } else {
        url_elements(urls.drop_last()) + url_element(urls.last())
    }
}

/// What opens the document: the byte-order mark, the XML declaration on
/// a line of its own, and the start of the root element.
pub open spec fn prologue() -> Seq<char> {
    "\u{feff}<?xml version=\"1.0\" encoding=\"UTF-8\"?>\n<urlset xmlns=\"http://www.sitemaps.org/schemas/sitemap/0.9\">"@
}

/// The sitemap of the pages of `urls`: the prologue, one element for each
/// page, and the end of the root element on a line of its own.
pub open spec fn document(urls: Seq<Seq<char>>) -> Seq<char> {
    prologue() + url_elements(urls) + "\n</urlset>"@
}

/// `quick_xml::escape::escape`: `text` with `<`, `>`, `&`, `'`, `"` and
/// the carriage return each replaced by its entity, and every other
/// character kept.
#[verifier::external_body]
fn escape(text: &str) -> (r: String)
    ensures
        r@ == escaped(text@),
{
    quick_xml::escape::escape(text).into_owned()
}

/// Appends the sitemap of the pages of `urls` to `w`.
pub fn write_xml(urls: &Vec<String>, w: &mut String)
    ensures
        final(w)@ == old(w)@ + document(keys(urls@)),
{
    let ghost all = keys(urls@);
    w.append(
        "\u{feff}<?xml version=\"1.0\" encoding=\"UTF-8\"?>\n<urlset xmlns=\"http://www.sitemaps.org/schemas/sitemap/0.9\">",
    );
    let mut i: usize = 0;
    assert(all.take(0) =~= Seq::<Seq<char>>::empty());
    assert(w@ =~= old(w)@ + prologue() + url_elements(all.take(0)));
    while i < urls.len()
        invariant
            i <= urls.len(),
            all == keys(urls@),
            w@ == old(w)@ + prologue() + url_elements(all.take(i as int)),
        decreases urls.len() - i,
    {
        w.append("\n  <url>\n    <loc>");
        let text = escape(urls[i].as_str());
        w.append(text.as_str());
        w.append("</loc>\n  </url>");
        proof {
            let next = all.take(i + 1);
            assert(next.drop_last() =~= all.take(i as int));
            assert(next.last() == urls@[i as int]@);
            assert(w@ =~= old(w)@ + prologue() + url_elements(next));
        }
        i += 1;
    }
    assert(all.take(urls.len() as int) =~= all);
    w.append("\n</urlset>");
    assert(w@ =~= old(w)@ + document(all));
}

} // verus!
