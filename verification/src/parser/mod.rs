//! The tokenizer's event protocol, and the tokenizer behind it.

pub mod balance;
pub mod extract_links;
pub mod gather;

use pulldown_cmark::Event as Token;
use pulldown_cmark::{LinkType, Options, Parser, Tag, TagEnd};
use vstd::prelude::*;
use vstd::string::*;
use crate::link::model::{text_view, Link, LinkBuilder, LinkDraft, LinkKind};
use crate::order::{keys, lemma_sorts_same_keys, sort_by_key, strictly_sorted, Keyed};

verus! {

/// One event of the tokenizer's stream, as far as links are concerned.
#[derive(Clone, Debug)]
pub enum Event {
    /// A link starts.
    StartLink { link_kind: LinkKind, url: String, title: String, id: String },
    /// The innermost open link ends.
    EndLink,
    /// An image starts.
    StartImage { link_kind: LinkKind, url: String, title: String, id: String },
    /// The innermost open image ends.
    EndImage,
    /// A run of text.
    Text(String),
    /// An inline code span.
    Code(String),
    /// Any other event: a heading, a paragraph, a break.
    Other,
}

/// What an [`Event`] holds, as mathematical values.
pub enum EventView {
    StartLink { link_kind: LinkKind, url: Seq<char>, title: Seq<char>, id: Seq<char> },
    EndLink,
    StartImage { link_kind: LinkKind, url: Seq<char>, title: Seq<char>, id: Seq<char> },
    EndImage,
    Text(Seq<char>),
    Code(Seq<char>),
    Other,
}

impl View for Event {
    type V = EventView;

    open spec fn view(&self) -> EventView {
        match *self {
            Event::StartLink { link_kind, url, title, id } => EventView::StartLink {
                link_kind,
                url: url@,
                title: title@,
                id: id@,
            },
            Event::EndLink => EventView::EndLink,
            Event::StartImage { link_kind, url, title, id } => EventView::StartImage {
                link_kind,
                url: url@,
                title: title@,
                id: id@,
            },
            Event::EndImage => EventView::EndImage,
            Event::Text(text) => EventView::Text(text@),
            Event::Code(code) => EventView::Code(code@),
            Event::Other => EventView::Other,
        }
    }
}

/// The views of the events of a stream, in order.
pub open spec fn event_views(events: Seq<Event>) -> Seq<EventView> {
    events.map_values(|e: Event| e@)
}

/// `pulldown_cmark::LinkType`, with its variants.
#[verifier::external_type_specification]
pub struct ExLinkType(pulldown_cmark::LinkType);

/// The kind that stands for a link type of the tokenizer.
pub open spec fn kind_of(link_type: LinkType) -> LinkKind {
    match link_type {
        LinkType::Inline => LinkKind::Inline,
        LinkType::Reference => LinkKind::Reference,
        LinkType::ReferenceUnknown => LinkKind::ReferenceUnknown,
        LinkType::Collapsed => LinkKind::Collapsed,
        LinkType::CollapsedUnknown => LinkKind::CollapsedUnknown,
        LinkType::Shortcut => LinkKind::Shortcut,
        LinkType::ShortcutUnknown => LinkKind::ShortcutUnknown,
        LinkType::Autolink => LinkKind::Autolink,
        LinkType::Email => LinkKind::Email,
        LinkType::WikiLink { has_pothole } => LinkKind::WikiLink { has_pothole },
    }
}

/// The kind that stands for a link type of the tokenizer.
pub fn link_kind_of(link_type: LinkType) -> (kind: LinkKind)
    ensures
        kind == kind_of(link_type),
{
    match link_type {
        LinkType::Inline => LinkKind::Inline,
        LinkType::Reference => LinkKind::Reference,
        LinkType::ReferenceUnknown => LinkKind::ReferenceUnknown,
        LinkType::Collapsed => LinkKind::Collapsed,
        LinkType::CollapsedUnknown => LinkKind::CollapsedUnknown,
        LinkType::Shortcut => LinkKind::Shortcut,
        LinkType::ShortcutUnknown => LinkKind::ShortcutUnknown,
        LinkType::Autolink => LinkKind::Autolink,
        LinkType::Email => LinkKind::Email,
        LinkType::WikiLink { has_pothole } => LinkKind::WikiLink { has_pothole },
    }
}

/// The tokenizer option that enables tables.
pub const ENABLE_TABLES: u32 = 2;

/// The tokenizer option that enables footnotes.
pub const ENABLE_FOOTNOTES: u32 = 4;

/// The tokenizer option that enables strikethrough.
pub const ENABLE_STRIKETHROUGH: u32 = 8;

/// The options that Markdown is tokenized with, as the bits of the
/// tokenizer's option set: strikethrough, footnotes and tables, which are
/// no part of CommonMark, are enabled.
pub fn get_options() -> (options: u32)
    ensures
        options == 14,
{
    let options = ENABLE_STRIKETHROUGH | ENABLE_FOOTNOTES | ENABLE_TABLES;
    assert(8u32 | 4u32 | 2u32 == 14u32) by (bit_vector);
    options
}

/// The events that the iterator `pulldown_cmark::Parser` yields on
/// `markdown`, made by `Parser::new_ext` with the option set whose bits
/// are `options`; each event is taken as the [`Event`] that stands for it.
pub uninterp spec fn markdown_events(markdown: Seq<char>, options: u32) -> Seq<EventView>;

/// The start of a link, as the tokenizer reports it.
pub fn link_start(link_type: LinkType, url: String, title: String, id: String) -> (event: Event)
    ensures
        event == (Event::StartLink { link_kind: kind_of(link_type), url, title, id }),
{
    Event::StartLink { link_kind: link_kind_of(link_type), url, title, id }
}

/// The start of an image, as the tokenizer reports it.
pub fn image_start(link_type: LinkType, url: String, title: String, id: String) -> (event: Event)
    ensures
        event == (Event::StartImage { link_kind: kind_of(link_type), url, title, id }),
{
    Event::StartImage { link_kind: link_kind_of(link_type), url, title, id }
}

/// `Parser::new_ext` of `pulldown_cmark`, on `markdown` and the option set
/// whose bits are `options`, walked to its end. The start and the end of
/// a link and of an image, text and inline code are handed on with what
/// they hold; any other event is handed on as [`Event::Other`]. The
/// events depend on `markdown` and `options` alone.
#[verifier::external_body]
fn events_of(markdown: &str, options: u32) -> (events: Vec<Event>)
    ensures
        event_views(events@) == markdown_events(markdown@, options),
{
    Parser::new_ext(markdown, Options::from_bits_truncate(options)).map(|event| match event {
        Token::Start(Tag::Link { link_type, dest_url, title, id }) =>
            link_start(link_type, dest_url.into(), title.into(), id.into()),
        Token::Start(Tag::Image { link_type, dest_url, title, id }) =>
            image_start(link_type, dest_url.into(), title.into(), id.into()),
        Token::End(TagEnd::Link) => Event::EndLink,
        Token::End(TagEnd::Image) => Event::EndImage,
        Token::Text(text) => Event::Text(text.into()),
        Token::Code(code) => Event::Code(code.into()),
        _ => Event::Other,
    }).collect()
}

/// Tokenizes `markdown`: the events of the document, in order.
pub fn tokenize(markdown: &str) -> (events: Vec<Event>)
    ensures
        event_views(events@) == markdown_events(markdown@, 14),
{
    events_of(markdown, get_options())
}

/// One reference definition of a document: `[label]: dest "title"`.
#[derive(Clone, Debug)]
pub struct RefDef {
    pub label: String,
    pub dest: String,
    pub title: Option<String>,
}

/// What a [`RefDef`] holds, as mathematical values.
pub struct RefDefView {
    pub label: Seq<char>,
    pub dest: Seq<char>,
    pub title: Option<Seq<char>>,
}

impl View for RefDef {
    type V = RefDefView;

    open spec fn view(&self) -> RefDefView {
        RefDefView { label: self.label@, dest: self.dest@, title: text_view(self.title) }
    }
}

impl Keyed for RefDef {
    open spec fn key(&self) -> Seq<char> {
        self.label@
    }

    fn key_text(&self) -> (r: &str) {
        self.label.as_str()
    }
}

impl RefDefView {
    /// The definition as a link under construction: its label, its
    /// destination and its title.
    pub open spec fn draft(self) -> LinkDraft {
        LinkDraft::empty().with_label(self.label).with_url(self.dest).with_title(
            match self.title {
                Some(title) => title,
                None => Seq::empty(),
            },
        )
    }
}

impl RefDef {
    /// A builder that holds the label, the destination and the title of
    /// the definition.
    pub fn to_builder(&self) -> (builder: LinkBuilder)
        ensures
            builder@ == self@.draft(),
    {
        let builder = LinkBuilder::default().set_label(self.label.as_str()).set_url(
            self.dest.as_str(),
        );
        match &self.title {
            Some(title) => builder.set_title(title.as_str()),
            None => {
                proof {
                    reveal_strlit("");
                    assert(""@ =~= Seq::<char>::empty());
                }
                builder.set_title("")
            },
        }
    }

    /// The definition as a link.
    pub fn to_link(&self) -> (link: Link)
        ensures
            link@ == self@.draft().built(),
    {
        self.to_builder().build()
    }
}

/// The views of the definitions of a list, in order.
pub open spec fn refdef_views(defs: Seq<RefDef>) -> Seq<RefDefView> {
    defs.map_values(|d: RefDef| d@)
}

/// The reference definitions that `pulldown_cmark::Parser` finds in
/// `markdown`, made by `Parser::new_ext` with the option set whose bits
/// are `options`: each by its label.
pub uninterp spec fn markdown_refdefs(markdown: Seq<char>, options: u32) -> Map<
    Seq<char>,
    RefDefView,
>;

/// `defs` lists the definitions of `found`, each once, in some order.
pub open spec fn lists(defs: Seq<RefDef>, found: Map<Seq<char>, RefDefView>) -> bool {
    &&& forall|i: int|
        0 <= i < defs.len() ==> found.contains_key((#[trigger] defs[i]).label@) && found[defs[i].label@]
            == defs[i]@
    &&& forall|i: int, j: int|
        0 <= i < j < defs.len() ==> (#[trigger] defs[i]).label@ != (#[trigger] defs[j]).label@
    &&& forall|label: Seq<char>| #[trigger]
        found.contains_key(label) ==> keys(defs).contains(label)
}

/// `Parser::reference_definitions` of `pulldown_cmark`, on the parser that
/// `Parser::new_ext` makes of `markdown` and the option set whose bits are
/// `options`, walked with `RefDefs::iter`. The definitions come in no
/// order that could be told beforehand; each label comes once. What is
/// found depends on `markdown` and `options` alone.
#[verifier::external_body]
fn refdefs_of(markdown: &str, options: u32) -> (defs: Vec<RefDef>)
    ensures
        lists(defs@, markdown_refdefs(markdown@, options)),
{
    Parser::new_ext(markdown, Options::from_bits_truncate(options)).reference_definitions().iter().map(
        |(label, def)| RefDef {
            label: label.to_string(),
            dest: def.dest.to_string(),
            title: def.title.as_ref().map(|title| title.to_string()),
        },
    ).collect()
}

/// `defs` lists the definitions of `found`, each once, in the order of
/// their labels.
pub open spec fn lists_sorted(defs: Seq<RefDef>, found: Map<Seq<char>, RefDefView>) -> bool {
    &&& strictly_sorted(keys(defs))
    &&& forall|i: int|
        0 <= i < defs.len() ==> found.contains_key((#[trigger] defs[i]).label@) && found[defs[i].label@]
            == defs[i]@
    &&& forall|label: Seq<char>| #[trigger]
        found.contains_key(label) ==> keys(defs).contains(label)
}

/// `views` lists the definitions of `found`, each once, in the order of
/// their labels.
pub open spec fn is_sorted_listing(views: Seq<RefDefView>, found: Map<Seq<char>, RefDefView>) -> bool {
    &&& strictly_sorted(views.map_values(|d: RefDefView| d.label))
    &&& forall|i: int|
        0 <= i < views.len() ==> found.contains_key((#[trigger] views[i]).label) && found[views[i].label]
            == views[i]
    &&& forall|label: Seq<char>| #[trigger]
        found.contains_key(label) ==> views.map_values(|d: RefDefView| d.label).contains(label)
}

/// A list of definitions that is sorted is so as a list of views.
pub proof fn lemma_sorted_listing(defs: Seq<RefDef>, found: Map<Seq<char>, RefDefView>)
    requires
        lists_sorted(defs, found),
    ensures
        is_sorted_listing(refdef_views(defs), found),
{
    let views = refdef_views(defs);
    assert(views.map_values(|d: RefDefView| d.label) =~= keys(defs));
}

/// A document has one sorted list of definitions only.
pub proof fn lemma_sorted_listing_unique(
    x: Seq<RefDefView>,
    y: Seq<RefDefView>,
    found: Map<Seq<char>, RefDefView>,
)
    requires
        is_sorted_listing(x, found),
        is_sorted_listing(y, found),
    ensures
        x == y,
{
    let a = x.map_values(|d: RefDefView| d.label);
    let b = y.map_values(|d: RefDefView| d.label);
    assert forall|u: Seq<char>| a.contains(u) <==> b.contains(u) by {
        if a.contains(u) {
            let i = choose|i: int| 0 <= i < a.len() && a[i] == u;
            assert(found.contains_key(x[i].label));
        }
        if b.contains(u) {
            let i = choose|i: int| 0 <= i < b.len() && b[i] == u;
            assert(found.contains_key(y[i].label));
        }
    }
    crate::order::lemma_strictly_sorted_unique(a, b);
    assert(x.len() == a.len() && y.len() == b.len());
    assert forall|i: int| 0 <= i < x.len() implies x[i] == y[i] by {
        assert(a[i] == x[i].label && b[i] == y[i].label);
    }
    assert(x =~= y);
}

/// The definitions of a document, in the order of their labels.
pub open spec fn sorted_refdefs(markdown: Seq<char>) -> Seq<RefDefView> {
    choose|defs: Seq<RefDefView>| is_sorted_listing(defs, markdown_refdefs(markdown, 14))
}

/// The reference definitions of `markdown`, sorted by label.
pub fn reference_definitions(markdown: &str) -> (defs: Vec<RefDef>)
    ensures
        lists_sorted(defs@, markdown_refdefs(markdown@, 14)),
        refdef_views(defs@) == sorted_refdefs(markdown@),
{
    let found = refdefs_of(markdown, get_options());
    let defs = sort_by_key(found);
    proof {
        let map = markdown_refdefs(markdown@, 14);
        lemma_sorts_same_keys(found@, defs@);
        assert forall|i: int| 0 <= i < defs@.len() implies map.contains_key(
            (#[trigger] defs@[i]).label@,
        ) && map[defs@[i].label@] == defs@[i]@ by {
            let j = choose|j: int|
                crate::order::is_first_of_key(found@, j) && found@[j] == defs@[i];
        }
        assert forall|label: Seq<char>| #[trigger] map.contains_key(label) implies keys(
            defs@,
        ).contains(label) by {
            assert(keys(found@).contains(label));
        }
        lemma_sorted_listing(defs@, map);
        lemma_sorted_listing_unique(refdef_views(defs@), sorted_refdefs(markdown@), map);
    }
    defs
}

} // verus!
