//! The five textual forms of a link.

use vstd::prelude::*;
use vstd::string::*;
use crate::link::model::{str_view, ImageLinkView, Link, LinkDraft, LinkView};

verus! {

/// The title as it follows a destination: a space and the title in double
/// quotes, or nothing where the title is absent or empty.
pub open spec fn title_segment(title: Option<Seq<char>>) -> Seq<char> {
    match title {
        Some(t) => if t.len() > 0 {
            " \""@ + t + "\""@
        } else {
            Seq::empty()
        },
        None => Seq::empty(),
    }
}

/// `[label]: url "title"`
pub open spec fn definition(label: Seq<char>, url: Seq<char>, title: Option<Seq<char>>) -> Seq<
    char,
> {
    "["@ + label + "]: "@ + url + title_segment(title)
}

impl ImageLinkView {
    /// `[label]: url "title"`, for the image.
    pub open spec fn reference_definition(self) -> Seq<char> {
        definition(self.label, self.url, self.title)
    }
}

impl LinkView {
    /// `[text](url "title")`
    pub open spec fn inline_link(self) -> Seq<char> {
        "["@ + self.text + "]("@ + self.url + title_segment(self.title) + ")"@
    }

    /// `[text][label]`
    pub open spec fn reference_link(self) -> Seq<char> {
        "["@ + self.text + "]["@ + self.label + "]"@
    }

    /// `[label]: url "title"`
    pub open spec fn reference_definition(self) -> Seq<char> {
        definition(self.label, self.url, self.title)
    }

    /// `[![alt][badge-label]][label]`: the image, by its label, as what the
    /// link shows. A link without an image is written as a reference link.
    pub open spec fn link_with_badge(self) -> Seq<char> {
        match self.image {
            Some(image) => "[!["@ + image.alt_text + "]["@ + image.label + "]]["@ + self.label
                + "]"@,
            None => self.reference_link(),
        }
    }

    /// Two lines: the definition of the link's label, then that of the
    /// image's label. A link without an image has the first line only.
    pub open spec fn badge_reference_definition(self) -> Seq<char> {
        match self.image {
            Some(image) => self.reference_definition() + "\n"@ + image.reference_definition(),
            None => self.reference_definition(),
        }
    }
}

/// A link without a title is written without a title segment: the inline
/// link closes right after the destination, and the definition ends with
/// the destination.
pub proof fn lemma_absent_title_is_omitted(link: LinkView)
    requires
        link.title is None || link.title == Some(Seq::<char>::empty()),
    ensures
        link.inline_link() == "["@ + link.text + "]("@ + link.url + ")"@,
        link.reference_definition() == "["@ + link.label + "]: "@ + link.url,
{
    assert(title_segment(link.title) =~= Seq::<char>::empty());
    assert(link.inline_link() =~= "["@ + link.text + "]("@ + link.url + ")"@);
    assert(link.reference_definition() =~= "["@ + link.label + "]: "@ + link.url);
}

/// A link that was built with an empty title has no title, and is written
/// without a title segment.
pub proof fn lemma_empty_title_is_omitted(draft: LinkDraft)
    requires
        draft.title.len() == 0,
    ensures
        draft.built().title is None,
        draft.built().inline_link() == "["@ + draft.text + "]("@ + draft.url + ")"@,
        draft.built().reference_definition() == "["@ + draft.derived_label() + "]: "@
            + draft.url,
{
    lemma_absent_title_is_omitted(draft.built());
}

/// Appends the title segment to `out`.
fn push_title(out: &mut String, title: Option<&str>)
    ensures
        final(out)@ == old(out)@ + title_segment(str_view(title)),
{
    match title {
        Some(t) => {
            if !t.is_empty() {
                out.append(" \"");
                out.append(t);
                out.append("\"");
                assert(out@ =~= old(out)@ + (" \""@ + t@ + "\""@));
            } else {
                assert(out@ =~= old(out)@ + Seq::<char>::empty());
            }
        },
        None => {
            assert(out@ =~= old(out)@ + Seq::<char>::empty());
        },
    }
}

/// Appends `[label]: url "title"` to `out`.
fn push_definition(out: &mut String, label: &str, url: &str, title: Option<&str>)
    ensures
        final(out)@ == old(out)@ + definition(label@, url@, str_view(title)),
{
    out.append("[");
    out.append(label);
    out.append("]: ");
    out.append(url);
    push_title(out, title);
    assert(out@ =~= old(out)@ + definition(label@, url@, str_view(title)));
}

impl Link {
    /// The link written inline: `[text](url "title")`, without the title
    /// segment where the link has no title.
    pub fn to_inline_link(&self) -> (r: String)
        ensures
            r@ == self@.inline_link(),
    {
        let mut out = String::new();
        out.append("[");
        out.append(self.get_text());
        out.append("](");
        out.append(self.get_url());
        push_title(&mut out, self.get_title());
        out.append(")");
        assert(out@ =~= self@.inline_link());
        out
    }

    /// The link written by reference: `[text][label]`.
    pub fn to_reference_link(&self) -> (r: String)
        ensures
            r@ == self@.reference_link(),
    {
        let mut out = String::new();
        out.append("[");
        out.append(self.get_text());
        out.append("][");
        out.append(self.get_label());
        out.append("]");
        assert(out@ =~= self@.reference_link());
        out
    }

    /// The definition of the link's label: `[label]: url "title"`, without
    /// the title segment where the link has no title.
    pub fn to_reference_definition(&self) -> (r: String)
        ensures
            r@ == self@.reference_definition(),
    {
        let mut out = String::new();
        push_definition(&mut out, self.get_label(), self.get_url(), self.get_title());
        assert(out@ =~= self@.reference_definition());
        out
    }

    /// The link around its badge: `[![alt][badge-label]][label]`. A link
    /// without an image is written as a reference link.
    pub fn to_link_with_badge(&self) -> (r: String)
        ensures
            r@ == self@.link_with_badge(),
    {
        match self.get_image() {
            Some(image) => {
                let mut out = String::new();
                out.append("[![");
                out.append(image.get_alt_text());
                out.append("][");
                out.append(image.get_label());
                out.append("]][");
                out.append(self.get_label());
                out.append("]");
                assert(out@ =~= self@.link_with_badge());
                out
            },
            None => self.to_reference_link(),
        }
    }

    /// The definitions a badge needs, one per line: that of the link's
    /// label, then that of the image's label. A link without an image has
    /// the first only.
    pub fn to_badge_reference_definition(&self) -> (r: String)
        ensures
            r@ == self@.badge_reference_definition(),
    {
        let mut out = self.to_reference_definition();
        match self.get_image() {
            Some(image) => {
                out.append("\n");
                push_definition(&mut out, image.get_label(), image.get_url(), image.get_title());
                assert(out@ =~= self@.badge_reference_definition());
            },
            None => {},
        }
        out
    }
}

} // verus!
