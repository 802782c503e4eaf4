use mdbook_utils::link::flags::LinkWriteFlags;
use mdbook_utils::link::model::LinkKind;
use mdbook_utils::parser::extract_links::{
    extract_links, extract_links_and_outcomes, ExtractError, Extractor, Outcome,
};
use mdbook_utils::parser::{get_options, link_kind_of, tokenize, Event};
use pulldown_cmark::LinkType;

fn start_link(url: &str, title: &str, id: &str) -> Event {
    Event::StartLink {
        link_kind: LinkKind::Reference,
        url: url.to_string(),
        title: title.to_string(),
        id: id.to_string(),
    }
}

fn start_image(url: &str, title: &str, id: &str) -> Event {
    Event::StartImage {
        link_kind: LinkKind::Inline,
        url: url.to_string(),
        title: title.to_string(),
        id: id.to_string(),
    }
}

fn text(t: &str) -> Event {
    Event::Text(t.to_string())
}

fn code(c: &str) -> Event {
    Event::Code(c.to_string())
}

#[test]
fn end_to_end_reference_link() {
    let events = vec![start_link("https://x.io", "", "x"), text("hello"), Event::EndLink];
    let links = extract_links(&events).expect("a balanced stream");
    assert_eq!(links.len(), 1);
    let link = &links[0];
    assert_eq!(link.get_text(), "hello");
    assert_eq!(link.get_url(), "https://x.io");
    assert_eq!(link.get_title(), None);
    assert!(link.get_image().is_none());
    let mut out = String::new();
    mdbook_utils::link::write::write(link, &LinkWriteFlags::default(), &mut out);
    assert_eq!(out, "[hello][x]\n\n[x]: https://x.io\n");
}

#[test]
fn empty_stream_has_no_link() {
    let links = extract_links(&Vec::new()).expect("a balanced stream");
    assert!(links.is_empty());
}

#[test]
fn events_outside_links_are_ignored() {
    let events = vec![
        Event::Other,
        text("before"),
        code("x"),
        Event::EndImage,
        start_image("a.png", "", ""),
        Event::EndImage,
        Event::EndLink,
        start_link("u", "", "l"),
        Event::EndLink,
        text("after"),
    ];
    let links = extract_links(&events).expect("nothing left open");
    assert_eq!(links.len(), 1);
    assert_eq!(links[0].get_text(), "");
    assert_eq!(links[0].get_label(), "l");
    assert!(links[0].get_image().is_none());
}

#[test]
fn text_events_are_concatenated_in_order() {
    let events = vec![
        start_link("u", "", "l"),
        text("a"),
        Event::Other,
        text("b"),
        code("c"),
        text("d"),
        Event::EndLink,
    ];
    let links = extract_links(&events).expect("a balanced stream");
    assert_eq!(links[0].get_text(), "abcd");
}

#[test]
fn link_without_image_has_no_image() {
    let events = vec![start_link("u", "t", "l"), text("a"), Event::EndLink];
    let links = extract_links(&events).expect("a balanced stream");
    assert!(links[0].get_image().is_none());
    assert_eq!(links[0].get_title(), Some("t"));
}

#[test]
fn image_alt_text_is_the_text_within_the_image() {
    let events = vec![
        start_link("https://x.io", "", "x"),
        text("see "),
        start_image("badge.svg", "Badge", "b"),
        text("al"),
        Event::Other,
        text("t"),
        Event::EndImage,
        text(" here"),
        Event::EndLink,
    ];
    let links = extract_links(&events).expect("a balanced stream");
    assert_eq!(links.len(), 1);
    let link = &links[0];
    assert_eq!(link.get_text(), "see  here");
    let image = link.get_image().expect("an image");
    assert_eq!(image.get_alt_text(), "alt");
    assert_eq!(image.get_url(), "badge.svg");
    assert_eq!(image.get_title(), Some("Badge"));
    assert_eq!(image.get_label(), "b");
    assert_eq!(image.get_link_type(), Some(LinkKind::Inline));
}

#[test]
fn code_within_an_image_is_taken_as_text() {
    let events = vec![
        start_link("u", "", "l"),
        start_image("i.png", "", ""),
        text("alt"),
        code("code"),
        Event::EndImage,
        Event::EndLink,
    ];
    let links = extract_links(&events).expect("a balanced stream");
    assert_eq!(links[0].get_text(), "");
    assert_eq!(links[0].get_image().expect("an image").get_alt_text(), "altcode");
}

#[test]
fn links_come_in_the_order_in_which_they_end() {
    let events = vec![
        start_link("outer", "", "o"),
        text("a"),
        start_link("inner", "", "i"),
        text("b"),
        Event::EndLink,
        text("c"),
        Event::EndLink,
        start_link("next", "", "n"),
        Event::EndLink,
    ];
    let links = extract_links(&events).expect("a balanced stream");
    assert_eq!(links.len(), 3);
    assert_eq!(links[0].get_url(), "inner");
    assert_eq!(links[0].get_text(), "b");
    assert_eq!(links[1].get_url(), "outer");
    assert_eq!(links[1].get_text(), "ac");
    assert_eq!(links[2].get_url(), "next");
}

#[test]
fn a_link_left_open_is_refused() {
    let events = vec![start_link("u", "", "l"), text("a")];
    assert_eq!(extract_links(&events).err(), Some(ExtractError::Unbalanced { open: 1 }));
}

#[test]
fn two_links_left_open_are_counted() {
    let events = vec![
        start_link("u", "", "l"),
        start_link("v", "", "m"),
        start_link("w", "", "n"),
        Event::EndLink,
    ];
    assert_eq!(extract_links(&events).err(), Some(ExtractError::Unbalanced { open: 2 }));
}

#[test]
fn an_end_of_link_within_an_image_is_unhandled() {
    let events = vec![start_link("u", "", "l"), start_image("i", "", ""), Event::EndLink];
    assert_eq!(extract_links(&events).err(), Some(ExtractError::Unbalanced { open: 1 }));
}

#[test]
fn an_image_within_an_image_is_unhandled() {
    let events = vec![
        start_link("u", "", "l"),
        start_image("first.png", "", ""),
        text("a"),
        start_image("second.png", "", ""),
        text("b"),
        Event::EndImage,
        text("c"),
        Event::EndImage,
        Event::EndLink,
    ];
    let links = extract_links(&events).expect("a balanced stream");
    assert_eq!(links.len(), 1);
    let image = links[0].get_image().expect("an image");
    assert_eq!(image.get_url(), "first.png");
    assert_eq!(image.get_alt_text(), "ab");
    assert_eq!(links[0].get_text(), "c");
}

#[test]
fn step_tells_what_became_of_each_event() {
    let mut machine = Extractor::new();
    assert_eq!(machine.depth(), 0);
    assert_eq!(machine.step(&text("out")), Outcome::Outside);
    assert_eq!(machine.step(&Event::EndLink), Outcome::Outside);
    assert_eq!(machine.step(&start_link("u", "", "l")), Outcome::Opened);
    assert_eq!(machine.depth(), 1);
    assert_eq!(machine.step(&text("t")), Outcome::Gathered);
    assert_eq!(machine.step(&Event::Other), Outcome::Unhandled);
    assert_eq!(machine.step(&Event::EndImage), Outcome::Unhandled);
    assert_eq!(machine.step(&start_image("i", "", "")), Outcome::Gathered);
    assert_eq!(machine.step(&start_image("j", "", "")), Outcome::Unhandled);
    assert_eq!(machine.step(&Event::EndLink), Outcome::Unhandled);
    assert_eq!(machine.step(&code("c")), Outcome::Gathered);
    assert!(machine.in_image());
    assert_eq!(machine.step(&Event::EndImage), Outcome::Gathered);
    assert!(!machine.in_image());
    assert_eq!(machine.step(&start_link("v", "", "m")), Outcome::Opened);
    assert_eq!(machine.depth(), 2);
    assert_eq!(machine.step(&Event::EndLink), Outcome::Closed);
    assert_eq!(machine.step(&Event::EndLink), Outcome::Closed);
    assert_eq!(machine.depth(), 0);
    let links = machine.finish().expect("nothing left open");
    assert_eq!(links.len(), 2);
    assert_eq!(links[0].get_url(), "v");
    assert_eq!(links[1].get_url(), "u");
    assert_eq!(links[1].get_text(), "t");
    assert_eq!(links[1].get_image().expect("an image").get_alt_text(), "c");
}

#[test]
fn a_link_within_an_image_is_a_link_of_its_own() {
    let mut machine = Extractor::new();
    assert!(!machine.in_image());
    assert_eq!(machine.step(&start_link("outer", "", "o")), Outcome::Opened);
    assert_eq!(machine.step(&start_image("i.png", "", "")), Outcome::Gathered);
    assert_eq!(machine.step(&text("a")), Outcome::Gathered);
    assert_eq!(machine.step(&start_link("inner", "", "n")), Outcome::OpenedInImage);
    assert_eq!(machine.step(&text("b")), Outcome::Gathered);
    assert_eq!(machine.step(&Event::EndLink), Outcome::Closed);
    assert_eq!(machine.step(&text("c")), Outcome::Gathered);
    assert_eq!(machine.step(&Event::EndImage), Outcome::Gathered);
    assert_eq!(machine.step(&Event::EndLink), Outcome::Closed);
    let links = machine.finish().expect("nothing left open");
    assert_eq!(links.len(), 2);
    assert_eq!(links[0].get_url(), "inner");
    assert_eq!(links[0].get_text(), "b");
    assert!(links[0].get_image().is_none());
    assert_eq!(links[1].get_url(), "outer");
    assert_eq!(links[1].get_image().expect("an image").get_alt_text(), "ac");
}

#[test]
fn outcomes_are_told_with_the_links() {
    let events = vec![
        text("out"),
        start_link("u", "", "l"),
        text("t"),
        Event::Other,
        start_image("i", "", ""),
        start_image("j", "", ""),
        start_link("v", "", "m"),
        Event::EndLink,
        Event::EndImage,
        Event::EndImage,
        Event::EndLink,
        Event::EndLink,
    ];
    let (links, outcomes) = extract_links_and_outcomes(&events);
    assert_eq!(
        outcomes,
        vec![
            Outcome::Outside,
            Outcome::Opened,
            Outcome::Gathered,
            Outcome::Unhandled,
            Outcome::Gathered,
            Outcome::Unhandled,
            Outcome::OpenedInImage,
            Outcome::Closed,
            Outcome::Gathered,
            Outcome::Unhandled,
            Outcome::Closed,
            Outcome::Outside,
        ]
    );
    let links = links.expect("nothing left open");
    assert_eq!(links.len(), 2);
    assert_eq!(links[0].get_url(), "v");
    assert_eq!(links[1].get_url(), "u");
}

#[test]
fn outcomes_are_told_of_a_stream_that_is_refused() {
    let events = vec![start_link("u", "", "l"), text("t")];
    let (links, outcomes) = extract_links_and_outcomes(&events);
    assert_eq!(links.err(), Some(ExtractError::Unbalanced { open: 1 }));
    assert_eq!(outcomes, vec![Outcome::Opened, Outcome::Gathered]);
    let (links, outcomes) = extract_links_and_outcomes(&Vec::new());
    assert!(links.expect("nothing left open").is_empty());
    assert!(outcomes.is_empty());
}

#[test]
fn finish_refuses_an_open_link() {
    let mut machine = Extractor::new();
    machine.step(&start_link("u", "", "l"));
    assert_eq!(machine.finish().err(), Some(ExtractError::Unbalanced { open: 1 }));
}

#[test]
fn options_are_those_of_the_tokenizer() {
    let expected = pulldown_cmark::Options::ENABLE_STRIKETHROUGH
        | pulldown_cmark::Options::ENABLE_FOOTNOTES
        | pulldown_cmark::Options::ENABLE_TABLES;
    assert_eq!(get_options(), expected.bits());
    assert_eq!(get_options(), 14);
}

#[test]
fn link_kinds_stand_for_link_types() {
    assert_eq!(link_kind_of(LinkType::Inline), LinkKind::Inline);
    assert_eq!(link_kind_of(LinkType::Reference), LinkKind::Reference);
    assert_eq!(link_kind_of(LinkType::ReferenceUnknown), LinkKind::ReferenceUnknown);
    assert_eq!(link_kind_of(LinkType::Collapsed), LinkKind::Collapsed);
    assert_eq!(link_kind_of(LinkType::CollapsedUnknown), LinkKind::CollapsedUnknown);
    assert_eq!(link_kind_of(LinkType::Shortcut), LinkKind::Shortcut);
    assert_eq!(link_kind_of(LinkType::ShortcutUnknown), LinkKind::ShortcutUnknown);
    assert_eq!(link_kind_of(LinkType::Autolink), LinkKind::Autolink);
    assert_eq!(link_kind_of(LinkType::Email), LinkKind::Email);
    assert_eq!(
        link_kind_of(LinkType::WikiLink { has_pothole: true }),
        LinkKind::WikiLink { has_pothole: true }
    );
}

fn describe(event: &Event) -> String {
    match event {
        Event::StartLink { link_kind, url, title, id } => {
            format!("link({:?},{},{},{})", link_kind, url, title, id)
        }
        Event::EndLink => "/link".to_string(),
        Event::StartImage { link_kind, url, title, id } => {
            format!("image({:?},{},{},{})", link_kind, url, title, id)
        }
        Event::EndImage => "/image".to_string(),
        Event::Text(t) => format!("text({})", t),
        Event::Code(c) => format!("code({})", c),
        Event::Other => "other".to_string(),
    }
}

#[test]
fn tokenize_hands_on_links_images_text_and_code() {
    let events = tokenize("[![alt](b.svg \"B\")`c`][x] <https://a.io>\n\n[x]: https://x.io \"X\"\n");
    let described: Vec<String> = events.iter().map(describe).collect();
    assert_eq!(
        described,
        vec![
            "other",
            "link(Reference,https://x.io,X,x)",
            "image(Inline,b.svg,B,)",
            "text(alt)",
            "/image",
            "code(c)",
            "/link",
            "text( )",
            "link(Autolink,https://a.io,,)",
            "text(https://a.io)",
            "/link",
            "other",
        ]
    );
}

#[test]
fn tokenize_enables_strikethrough() {
    let events = tokenize("~~gone~~");
    let described: Vec<String> = events.iter().map(describe).collect();
    assert_eq!(described, vec!["other", "other", "text(gone)", "other", "other"]);
}

#[test]
fn tokenized_links_are_extracted() {
    let events = tokenize("See [the *book*](https://b.io) and [![logo](l.png)][home].\n\n[home]: https://h.io\n");
    let links = extract_links(&events).expect("the tokenizer balances its events");
    assert_eq!(links.len(), 2);
    assert_eq!(links[0].get_text(), "the book");
    assert_eq!(links[0].get_link_type(), Some(LinkKind::Inline));
    assert_eq!(links[0].get_label(), "the book");
    assert_eq!(links[1].get_text(), "");
    assert_eq!(links[1].get_label(), "home");
    assert_eq!(links[1].get_url(), "https://h.io");
    assert_eq!(links[1].get_image().expect("an image").get_alt_text(), "logo");
}
