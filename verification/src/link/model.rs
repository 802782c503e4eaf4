//! The link entity, the image nested in it, and the builder that
//! accumulates both from fragments.

use vstd::prelude::*;
use vstd::string::*;

verus! {

/// How a link or an image was written in the Markdown source, as the
/// tokenizer reports it.
#[derive(Clone, Copy, Debug, PartialEq, Eq, Structural)]
pub enum LinkKind {
    /// `[foo](bar)`
    Inline,
    /// `[foo][bar]`
    Reference,
    /// `[foo][bar]` without a definition for `bar`
    ReferenceUnknown,
    /// `[foo][]`
    Collapsed,
    /// `[foo][]` without a definition for `foo`
    CollapsedUnknown,
    /// `[foo]`
    Shortcut,
    /// `[foo]` without a definition for `foo`
    ShortcutUnknown,
    /// `<http://foo.bar/baz>`
    Autolink,
    /// `<john@example.org>`
    Email,
    /// `[[foo]]` or, piped, `[[foo|bar]]`
    WikiLink { has_pothole: bool },
}

/// What an [`ImageLink`] holds, as mathematical values.
pub struct ImageLinkView {
    pub link_kind: Option<LinkKind>,
    pub url: Seq<char>,
    pub title: Option<Seq<char>>,
    pub label: Seq<char>,
    pub alt_text: Seq<char>,
}

/// What a [`Link`] holds, as mathematical values.
pub struct LinkView {
    pub link_kind: Option<LinkKind>,
    pub url: Seq<char>,
    pub title: Option<Seq<char>>,
    pub label: Seq<char>,
    pub text: Seq<char>,
    pub image: Option<ImageLinkView>,
}

/// What the image part of a [`LinkBuilder`] holds so far.
pub struct ImageDraft {
    pub link_kind: Option<LinkKind>,
    pub url: Seq<char>,
    pub title: Seq<char>,
    pub label: Seq<char>,
    pub alt_text: Seq<char>,
}

/// What a [`LinkBuilder`] holds so far. An empty `title` or `label` stands
/// for one that was not given.
pub struct LinkDraft {
    pub link_kind: Option<LinkKind>,
    pub url: Seq<char>,
    pub title: Seq<char>,
    pub label: Seq<char>,
    pub text: Seq<char>,
    pub image: Option<ImageDraft>,
}

/// The suffix that derives an image's label from the label of its link.
pub open spec fn badge_suffix() -> Seq<char> {
    "-badge"@
}

/// A title as a finished link holds it: absent where none was given.
pub open spec fn title_of(title: Seq<char>) -> Option<Seq<char>> {
    if title.len() == 0 {
        None
    } else {
        Some(title)
    }
}

impl ImageDraft {
    /// An image of which nothing is known yet.
    pub open spec fn empty() -> ImageDraft {
        ImageDraft {
            link_kind: None,
            url: Seq::empty(),
            title: Seq::empty(),
            label: Seq::empty(),
            alt_text: Seq::empty(),
        }
    }

    /// The finished image, nested in a link labelled `link_label`: a label
    /// that was not given is the link's label followed by `-badge`.
    pub open spec fn built(self, link_label: Seq<char>) -> ImageLinkView {
        ImageLinkView {
            link_kind: self.link_kind,
            url: self.url,
            title: title_of(self.title),
            label: if self.label.len() > 0 {
                self.label
            } else {
                link_label + badge_suffix()
            },
            alt_text: self.alt_text,
        }
    }
}

impl LinkDraft {
    /// A link of which nothing is known yet.
    pub open spec fn empty() -> LinkDraft {
        LinkDraft {
            link_kind: None,
            url: Seq::empty(),
            title: Seq::empty(),
            label: Seq::empty(),
            text: Seq::empty(),
            image: None,
        }
    }

    /// A link seeded with what the tokenizer reports at its start.
    pub open spec fn seeded(
        link_kind: LinkKind,
        url: Seq<char>,
        title: Seq<char>,
        label: Seq<char>,
    ) -> LinkDraft {
        LinkDraft::empty().with_type_url_title(link_kind, url, title, label)
    }

    /// Type, destination, title and reference label set at once.
    pub open spec fn with_type_url_title(
        self,
        link_kind: LinkKind,
        url: Seq<char>,
        title: Seq<char>,
        label: Seq<char>,
    ) -> LinkDraft {
        LinkDraft { link_kind: Some(link_kind), url, title, label, ..self }
    }

    /// The reference label set.
    pub open spec fn with_label(self, label: Seq<char>) -> LinkDraft {
        LinkDraft { label, ..self }
    }

    /// The destination set.
    pub open spec fn with_url(self, url: Seq<char>) -> LinkDraft {
        LinkDraft { url, ..self }
    }

    /// The title set.
    pub open spec fn with_title(self, title: Seq<char>) -> LinkDraft {
        LinkDraft { title, ..self }
    }

    /// `text` appended to the display text.
    pub open spec fn with_text(self, text: Seq<char>) -> LinkDraft {
        LinkDraft { text: self.text + text, ..self }
    }

    /// The nested image replaced by a new one, whose alt text is empty.
    pub open spec fn with_image(
        self,
        link_kind: LinkKind,
        url: Seq<char>,
        title: Seq<char>,
        label: Seq<char>,
    ) -> LinkDraft {
        LinkDraft {
            image: Some(
                ImageDraft { link_kind: Some(link_kind), url, title, label, alt_text: Seq::empty() },
            ),
            ..self
        }
    }

    /// The nested image, or an empty one where there is none yet.
    pub open spec fn image_or_empty(self) -> ImageDraft {
        match self.image {
            Some(image) => image,
            None => ImageDraft::empty(),
        }
    }

    /// The URL of the nested image set; the image is created if need be.
    pub open spec fn with_image_url(self, url: Seq<char>) -> LinkDraft {
        LinkDraft { image: Some(ImageDraft { url, ..self.image_or_empty() }), ..self }
    }

    /// `text` appended to the alt text of the nested image; the image is
    /// created if need be.
    pub open spec fn with_image_alt_text(self, text: Seq<char>) -> LinkDraft {
        let image = self.image_or_empty();
        LinkDraft { image: Some(ImageDraft { alt_text: image.alt_text + text, ..image }), ..self }
    }

    /// The label of the finished link: the one given, else the display
    /// text, else the URL.
    pub open spec fn derived_label(self) -> Seq<char> {
        if self.label.len() > 0 {
            self.label
        } else if self.text.len() > 0 {
            self.text
        } else {
            self.url
        }
    }

    /// The finished link.
    pub open spec fn built(self) -> LinkView {
        LinkView {
            link_kind: self.link_kind,
            url: self.url,
            title: title_of(self.title),
            label: self.derived_label(),
            text: self.text,
            image: match self.image {
                Some(image) => Some(image.built(self.derived_label())),
                None => None,
            },
        }
    }
}

/// An image nested in a link: what a badge shows.
#[derive(Clone, Debug)]
pub struct ImageLink {
    link_kind: Option<LinkKind>,
    url: String,
    title: Option<String>,
    label: String,
    alt_text: String,
}

/// One Markdown link, finished: it is built once, by
/// [`LinkBuilder::build`], and not changed after.
#[derive(Clone, Debug)]
pub struct Link {
    link_kind: Option<LinkKind>,
    url: String,
    title: Option<String>,
    label: String,
    text: String,
    image: Option<ImageLink>,
}

/// The view of an optional string.
pub open spec fn text_view(s: Option<String>) -> Option<Seq<char>> {
    match s {
        Some(s) => Some(s@),
        None => None,
    }
}

/// The view of an optional string slice.
pub open spec fn str_view(s: Option<&str>) -> Option<Seq<char>> {
    match s {
        Some(s) => Some(s@),
        None => None,
    }
}

impl View for ImageLink {
    type V = ImageLinkView;

    closed spec fn view(&self) -> ImageLinkView {
        ImageLinkView {
            link_kind: self.link_kind,
            url: self.url@,
            title: text_view(self.title),
            label: self.label@,
            alt_text: self.alt_text@,
        }
    }
}

impl View for Link {
    type V = LinkView;

    closed spec fn view(&self) -> LinkView {
        LinkView {
            link_kind: self.link_kind,
            url: self.url@,
            title: text_view(self.title),
            label: self.label@,
            text: self.text@,
            image: match self.image {
                Some(image) => Some(image@),
                None => None,
            },
        }
    }
}

/// A borrowed view of an optional string.
fn as_opt_str(s: &Option<String>) -> (r: Option<&str>)
    ensures
        str_view(r) == text_view(*s),
{
    match s {
        Some(s) => Some(s.as_str()),
        None => None,
    }
}

/// The views of the links of a list, in order.
pub open spec fn link_views(links: Seq<Link>) -> Seq<LinkView> {
    links.map_values(|l: Link| l@)
}

impl ImageLink {
    /// How the image was written, if that is known.
    pub fn get_link_type(&self) -> (r: Option<LinkKind>)
        ensures
            r == self@.link_kind,
    {
        self.link_kind
    }

    /// The destination.
    pub fn get_url(&self) -> (r: &str)
        ensures
            r@ == self@.url,
    {
        self.url.as_str()
    }

    /// The title, if there is one.
    pub fn get_title(&self) -> (r: Option<&str>)
        ensures
            str_view(r) == self@.title,
    {
        as_opt_str(&self.title)
    }

    /// The reference label.
    pub fn get_label(&self) -> (r: &str)
        ensures
            r@ == self@.label,
    {
        self.label.as_str()
    }

    /// The alt text: the text between the start and the end of the image.
    pub fn get_alt_text(&self) -> (r: &str)
        ensures
            r@ == self@.alt_text,
    {
        self.alt_text.as_str()
    }
}

impl Link {
    /// How the link was written, if that is known.
    pub fn get_link_type(&self) -> (r: Option<LinkKind>)
        ensures
            r == self@.link_kind,
    {
        self.link_kind
    }

    /// The destination.
    pub fn get_url(&self) -> (r: &str)
        ensures
            r@ == self@.url,
    {
        self.url.as_str()
    }

    /// The title, if there is one.
    pub fn get_title(&self) -> (r: Option<&str>)
        ensures
            str_view(r) == self@.title,
    {
        as_opt_str(&self.title)
    }

    /// The reference label.
    pub fn get_label(&self) -> (r: &str)
        ensures
            r@ == self@.label,
    {
        self.label.as_str()
    }

    /// The display text.
    pub fn get_text(&self) -> (r: &str)
        ensures
            r@ == self@.text,
    {
        self.text.as_str()
    }

    /// The image nested in the link, if there is one.
    pub fn get_image(&self) -> (r: Option<&ImageLink>)
        ensures
            match r {
                Some(image) => self@.image == Some(image@),
                None => self@.image is None,
            },
    {
        self.image.as_ref()
    }
}

/// The image part of a link under construction.
#[derive(Clone, Debug)]
struct ImageParts {
    link_kind: Option<LinkKind>,
    url: String,
    title: String,
    label: String,
    alt_text: String,
}

impl View for ImageParts {
    type V = ImageDraft;

    closed spec fn view(&self) -> ImageDraft {
        ImageDraft {
            link_kind: self.link_kind,
            url: self.url@,
            title: self.title@,
            label: self.label@,
            alt_text: self.alt_text@,
        }
    }
}

impl ImageParts {
    fn empty() -> (r: ImageParts)
        ensures
            r@ == ImageDraft::empty(),
    {
        ImageParts {
            link_kind: None,
            url: String::new(),
            title: String::new(),
            label: String::new(),
            alt_text: String::new(),
        }
    }

    fn build(self, link_label: &str) -> (r: ImageLink)
        ensures
            r@ == self@.built(link_label@),
    {
        let label = if !self.label.as_str().is_empty() {
            self.label
        } else {
            String::from_str(link_label).concat("-badge")
        };
        ImageLink {
            link_kind: self.link_kind,
            url: self.url,
            title: optional(self.title),
            label,
            alt_text: self.alt_text,
        }
    }
}

/// `Some(s)`, or `None` where `s` is empty.
fn optional(s: String) -> (r: Option<String>)
    ensures
        text_view(r) == title_of(s@),
{
    if s.as_str().is_empty() {
        None
    } else {
        Some(s)
    }
}

/// A link under construction: it accumulates fragments, and
/// [`LinkBuilder::build`] turns it into a [`Link`].
#[derive(Clone, Debug)]
pub struct LinkBuilder {
    link_kind: Option<LinkKind>,
    url: String,
    title: String,
    label: String,
    text: String,
    image: Option<ImageParts>,
}

impl View for LinkBuilder {
    type V = LinkDraft;

    closed spec fn view(&self) -> LinkDraft {
        LinkDraft {
            link_kind: self.link_kind,
            url: self.url@,
            title: self.title@,
            label: self.label@,
            text: self.text@,
            image: match self.image {
                Some(image) => Some(image@),
                None => None,
            },
        }
    }
}

impl Default for LinkBuilder {
    /// A builder that holds nothing yet.
    fn default() -> (r: LinkBuilder)
        ensures
            r@ == LinkDraft::empty(),
    {
        LinkBuilder {
            link_kind: None,
            url: String::new(),
            title: String::new(),
            label: String::new(),
            text: String::new(),
            image: None,
        }
    }
}

impl LinkBuilder {
    /// A builder seeded with what the tokenizer reports at the start of a
    /// link: its type, destination, title and reference label. An empty
    /// `title` or `label` stands for none.
    pub fn from_type_url_title(link_kind: LinkKind, url: &str, title: &str, label: &str) -> (r:
        LinkBuilder)
        ensures
            r@ == LinkDraft::seeded(link_kind, url@, title@, label@),
    {
        LinkBuilder::default().set_from_type_url_title(link_kind, url, title, label)
    }

    /// Sets type, destination, title and reference label at once.
    pub fn set_from_type_url_title(self, link_kind: LinkKind, url: &str, title: &str, label: &str) -> (r:
        LinkBuilder)
        ensures
            r@ == self@.with_type_url_title(link_kind, url@, title@, label@),
    {
        LinkBuilder {
            link_kind: Some(link_kind),
            url: String::from_str(url),
            title: String::from_str(title),
            label: String::from_str(label),
            text: self.text,
            image: self.image,
        }
    }

    /// Sets the reference label.
    pub fn set_label(self, label: &str) -> (r: LinkBuilder)
        ensures
            r@ == self@.with_label(label@),
    {
        LinkBuilder { label: String::from_str(label), ..self }
    }

    /// Sets the destination.
    pub fn set_url(self, url: &str) -> (r: LinkBuilder)
        ensures
            r@ == self@.with_url(url@),
    {
        LinkBuilder { url: String::from_str(url), ..self }
    }

    /// Sets the title; an empty one stands for none.
    pub fn set_title(self, title: &str) -> (r: LinkBuilder)
        ensures
            r@ == self@.with_title(title@),
    {
        LinkBuilder { title: String::from_str(title), ..self }
    }

    /// Appends `text` to the display text, with no separator.
    pub fn add_text(self, text: &str) -> (r: LinkBuilder)
        ensures
            r@ == self@.with_text(text@),
    {
        LinkBuilder { text: self.text.concat(text), ..self }
    }

    /// Replaces the nested image by one with the given type, destination,
    /// title and label, and no alt text yet.
    pub fn set_image(self, link_kind: LinkKind, url: &str, title: &str, label: &str) -> (r:
        LinkBuilder)
        ensures
            r@ == self@.with_image(link_kind, url@, title@, label@),
    {
        let image = ImageParts {
            link_kind: Some(link_kind),
            url: String::from_str(url),
            title: String::from_str(title),
            label: String::from_str(label),
            alt_text: String::new(),
        };
        LinkBuilder { image: Some(image), ..self }
    }

    /// Sets the destination of the nested image, which is created if the
    /// link has none yet.
    pub fn set_image_url(self, url: &str) -> (r: LinkBuilder)
        ensures
            r@ == self@.with_image_url(url@),
    {
        let image = match self.image {
            Some(image) => image,
            None => ImageParts::empty(),
        };
        LinkBuilder {
            link_kind: self.link_kind,
            url: self.url,
            title: self.title,
            label: self.label,
            text: self.text,
            image: Some(ImageParts { url: String::from_str(url), ..image }),
        }
    }

    /// Appends `text` to the alt text of the nested image, which is
    /// created if the link has none yet.
    pub fn add_image_alt_text(self, text: &str) -> (r: LinkBuilder)
        ensures
            r@ == self@.with_image_alt_text(text@),
    {
        let image = match self.image {
            Some(image) => image,
            None => ImageParts::empty(),
        };
        LinkBuilder {
            link_kind: self.link_kind,
            url: self.url,
            title: self.title,
            label: self.label,
            text: self.text,
            image: Some(ImageParts { alt_text: image.alt_text.concat(text), ..image }),
        }
    }

    /// Finishes the link. A label that was not given is derived: from the
    /// display text, or from the destination where there is no text. The
    /// label of a nested image that has none is the link's label followed
    /// by `-badge`.
    pub fn build(self) -> (r: Link)
        ensures
            r@ == self@.built(),
    {
        let label = if !self.label.as_str().is_empty() {
            self.label
        } else if !self.text.as_str().is_empty() {
            self.text.clone()
        } else {
            self.url.clone()
        };
        let image = match self.image {
            Some(image) => Some(image.build(label.as_str())),
            None => None,
        };
        Link {
            link_kind: self.link_kind,
            url: self.url,
            title: optional(self.title),
            label,
            text: self.text,
            image,
        }
    }
}

} // verus!
