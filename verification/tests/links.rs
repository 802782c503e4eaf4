use mdbook_utils::link::flags::{LinkWrite, LinkWriteFlags};
use mdbook_utils::link::model::{LinkBuilder, LinkKind};
use mdbook_utils::link::write::{
    render, write_badge_refdefs_and_links_to_two, write_refdefs_to,
    write_reference_style_links_to,
};

fn sample() -> LinkBuilder {
    LinkBuilder::from_type_url_title(LinkKind::Inline, "https://x.io", "", "x").add_text("hello")
}

fn with_badge() -> LinkBuilder {
    LinkBuilder::from_type_url_title(LinkKind::Reference, "https://github.com/o/r", "Repo", "gh")
        .add_text("the repo")
        .set_image(LinkKind::Reference, "https://img.io/b.svg", "Stars", "gh-stars")
        .add_image_alt_text("stars")
}

#[test]
fn builder_keeps_what_it_is_given() {
    let link = sample().build();
    assert_eq!(link.get_link_type(), Some(LinkKind::Inline));
    assert_eq!(link.get_url(), "https://x.io");
    assert_eq!(link.get_title(), None);
    assert_eq!(link.get_label(), "x");
    assert_eq!(link.get_text(), "hello");
    assert!(link.get_image().is_none());
}

#[test]
fn default_builder_builds_an_empty_link() {
    let link = LinkBuilder::default().build();
    assert_eq!(link.get_link_type(), None);
    assert_eq!(link.get_url(), "");
    assert_eq!(link.get_title(), None);
    assert_eq!(link.get_label(), "");
    assert_eq!(link.get_text(), "");
    assert!(link.get_image().is_none());
}

#[test]
fn text_fragments_are_joined_without_separator() {
    let link = sample().add_text(", ").add_text("world").build();
    assert_eq!(link.get_text(), "hello, world");
}

#[test]
fn a_title_is_kept_when_given() {
    let link = LinkBuilder::from_type_url_title(LinkKind::Inline, "u", "A title", "l").build();
    assert_eq!(link.get_title(), Some("A title"));
    let link = LinkBuilder::default().set_title("Another").build();
    assert_eq!(link.get_title(), Some("Another"));
}

#[test]
fn label_is_derived_from_text_then_from_url() {
    let from_text = LinkBuilder::from_type_url_title(LinkKind::Inline, "https://x.io", "", "")
        .add_text("hello")
        .build();
    assert_eq!(from_text.get_label(), "hello");
    let from_url =
        LinkBuilder::from_type_url_title(LinkKind::Autolink, "https://x.io", "", "").build();
    assert_eq!(from_url.get_label(), "https://x.io");
    let given = LinkBuilder::default().set_url("https://x.io").set_label("given").build();
    assert_eq!(given.get_label(), "given");
}

#[test]
fn image_keeps_what_it_is_given() {
    let link = with_badge().build();
    let image = link.get_image().expect("an image");
    assert_eq!(image.get_link_type(), Some(LinkKind::Reference));
    assert_eq!(image.get_url(), "https://img.io/b.svg");
    assert_eq!(image.get_title(), Some("Stars"));
    assert_eq!(image.get_label(), "gh-stars");
    assert_eq!(image.get_alt_text(), "stars");
}

#[test]
fn image_label_is_derived_from_the_link_label() {
    let link = LinkBuilder::default()
        .set_label("github")
        .set_url("https://github.com/o/r")
        .set_image_url("https://img.io/b.svg")
        .build();
    let image = link.get_image().expect("an image");
    assert_eq!(image.get_label(), "github-badge");
    assert_eq!(image.get_url(), "https://img.io/b.svg");
    assert_eq!(image.get_alt_text(), "");
    assert_eq!(image.get_title(), None);
    assert_eq!(image.get_link_type(), None);
}

#[test]
fn alt_text_creates_the_image_if_need_be() {
    let link = LinkBuilder::default().add_image_alt_text("a").add_image_alt_text("b").build();
    let image = link.get_image().expect("an image");
    assert_eq!(image.get_alt_text(), "ab");
    assert_eq!(image.get_url(), "");
}

#[test]
fn a_second_image_replaces_the_first() {
    let link = with_badge().set_image(LinkKind::Inline, "second.png", "", "").build();
    let image = link.get_image().expect("an image");
    assert_eq!(image.get_url(), "second.png");
    assert_eq!(image.get_alt_text(), "");
    assert_eq!(image.get_label(), "gh-badge");
}

#[test]
fn inline_link_without_title_has_no_title_segment() {
    let link = sample().build();
    assert_eq!(link.to_inline_link(), "[hello](https://x.io)");
    assert!(!link.to_inline_link().contains('"'));
}

#[test]
fn inline_link_with_title() {
    let link = with_badge().build();
    assert_eq!(link.to_inline_link(), "[the repo](https://github.com/o/r \"Repo\")");
}

#[test]
fn reference_link_form() {
    assert_eq!(sample().build().to_reference_link(), "[hello][x]");
}

#[test]
fn reference_definition_without_title_has_no_title_segment() {
    let link = sample().build();
    assert_eq!(link.to_reference_definition(), "[x]: https://x.io");
}

#[test]
fn reference_definition_with_title() {
    let link = with_badge().build();
    assert_eq!(link.to_reference_definition(), "[gh]: https://github.com/o/r \"Repo\"");
}

#[test]
fn link_with_badge_form() {
    let link = with_badge().build();
    assert_eq!(link.to_link_with_badge(), "[![stars][gh-stars]][gh]");
}

#[test]
fn link_with_badge_falls_back_to_reference_link() {
    assert_eq!(sample().build().to_link_with_badge(), "[hello][x]");
}

#[test]
fn badge_reference_definition_has_two_lines() {
    let link = with_badge().build();
    assert_eq!(
        link.to_badge_reference_definition(),
        "[gh]: https://github.com/o/r \"Repo\"\n[gh-stars]: https://img.io/b.svg \"Stars\""
    );
}

#[test]
fn badge_reference_definition_without_image_has_one_line() {
    assert_eq!(sample().build().to_badge_reference_definition(), "[x]: https://x.io");
}

#[test]
fn render_gives_each_form() {
    let link = with_badge().build();
    assert_eq!(render(&link, LinkWrite::InlineLink), link.to_inline_link());
    assert_eq!(render(&link, LinkWrite::ReferenceLink), link.to_reference_link());
    assert_eq!(render(&link, LinkWrite::ReferenceDefinition), link.to_reference_definition());
    assert_eq!(render(&link, LinkWrite::LinkWithBadge), link.to_link_with_badge());
    assert_eq!(
        render(&link, LinkWrite::BadgeReferenceDefinition),
        link.to_badge_reference_definition()
    );
}

#[test]
fn flags_hold_what_was_put_in() {
    let flags = LinkWriteFlags::only(LinkWrite::InlineLink).with(LinkWrite::LinkWithBadge);
    assert!(flags.contains(LinkWrite::InlineLink));
    assert!(flags.contains(LinkWrite::LinkWithBadge));
    assert!(!flags.contains(LinkWrite::ReferenceLink));
    assert!(!flags.contains(LinkWrite::ReferenceDefinition));
    assert!(!flags.contains(LinkWrite::BadgeReferenceDefinition));
    assert!(!LinkWriteFlags::empty().contains(LinkWrite::InlineLink));
}

#[test]
fn default_flags_are_reference_link_and_definition() {
    let flags = LinkWriteFlags::default();
    assert!(flags.contains(LinkWrite::ReferenceLink));
    assert!(flags.contains(LinkWrite::ReferenceDefinition));
    assert!(!flags.contains(LinkWrite::InlineLink));
    assert!(!flags.contains(LinkWrite::LinkWithBadge));
    assert!(!flags.contains(LinkWrite::BadgeReferenceDefinition));
}

#[test]
fn flag_bits() {
    assert_eq!(LinkWrite::InlineLink.bit(), 1);
    assert_eq!(LinkWrite::ReferenceLink.bit(), 2);
    assert_eq!(LinkWrite::ReferenceDefinition.bit(), 4);
    assert_eq!(LinkWrite::LinkWithBadge.bit(), 8);
    assert_eq!(LinkWrite::BadgeReferenceDefinition.bit(), 16);
}

#[test]
fn flags_union_and_intersects() {
    let links = LinkWriteFlags::only(LinkWrite::InlineLink).with(LinkWrite::ReferenceLink);
    let definitions = LinkWriteFlags::only(LinkWrite::ReferenceDefinition);
    let both = links.union(definitions);
    assert!(both.contains(LinkWrite::InlineLink));
    assert!(both.contains(LinkWrite::ReferenceLink));
    assert!(both.contains(LinkWrite::ReferenceDefinition));
    assert!(!links.intersects(definitions));
    assert!(both.intersects(definitions));
    assert!(both.intersects(links));
    assert!(!LinkWriteFlags::empty().intersects(both));
}

#[test]
fn write_reference_link_and_definition() {
    let link = sample().build();
    let mut out = String::new();
    mdbook_utils::link::write::write(&link, &LinkWriteFlags::default(), &mut out);
    assert_eq!(out, "[hello][x]\n\n[x]: https://x.io\n");
}

#[test]
fn write_appends_to_what_is_there() {
    let link = sample().build();
    let mut out = String::from("before\n");
    mdbook_utils::link::write::write(&link, &LinkWriteFlags::only(LinkWrite::InlineLink), &mut out);
    assert_eq!(out, "before\n[hello](https://x.io)\n");
}

#[test]
fn write_nothing_for_no_flag() {
    let link = sample().build();
    let mut out = String::new();
    mdbook_utils::link::write::write(&link, &LinkWriteFlags::empty(), &mut out);
    assert_eq!(out, "");
}

#[test]
fn write_definition_alone_has_no_blank_line() {
    let link = sample().build();
    let mut out = String::new();
    mdbook_utils::link::write::write(&link, &LinkWriteFlags::only(LinkWrite::ReferenceDefinition), &mut out);
    assert_eq!(out, "[x]: https://x.io\n");
}

#[test]
fn write_all_forms_in_fixed_order() {
    let link = with_badge().build();
    let flags = LinkWriteFlags::only(LinkWrite::BadgeReferenceDefinition)
        .with(LinkWrite::LinkWithBadge)
        .with(LinkWrite::ReferenceDefinition)
        .with(LinkWrite::ReferenceLink)
        .with(LinkWrite::InlineLink);
    let mut out = String::new();
    mdbook_utils::link::write::write(&link, &flags, &mut out);
    assert_eq!(
        out,
        "[the repo](https://github.com/o/r \"Repo\")\n\
         [the repo][gh]\n\
         [![stars][gh-stars]][gh]\n\
         \n\
         [gh]: https://github.com/o/r \"Repo\"\n\
         [gh]: https://github.com/o/r \"Repo\"\n\
         [gh-stars]: https://img.io/b.svg \"Stars\"\n"
    );
}

#[test]
fn write_reference_style_links_has_heading_and_blank_lines() {
    let links = vec![sample().build(), with_badge().build()];
    let mut out = String::new();
    write_reference_style_links_to(links, &mut out);
    assert_eq!(
        out,
        "# Links\n\n\
         [hello][x]\n\n[x]: https://x.io\n\n\
         [the repo][gh]\n\n[gh]: https://github.com/o/r \"Repo\"\n\n"
    );
}

#[test]
fn write_reference_style_links_of_no_link() {
    let mut out = String::new();
    write_reference_style_links_to(Vec::new(), &mut out);
    assert_eq!(out, "# Links\n\n");
}

#[test]
fn write_refdefs_has_heading_and_definitions() {
    let links = vec![sample().build(), with_badge().build()];
    let mut out = String::new();
    write_refdefs_to(links, &mut out);
    assert_eq!(
        out,
        "# Reference Definitions\n\n\
         [x]: https://x.io\n\n\
         [gh]: https://github.com/o/r \"Repo\"\n\n"
    );
}

#[test]
fn write_badges_to_two_texts() {
    let links = vec![with_badge().build()];
    let mut links_out = String::new();
    let mut refdefs_out = String::from("kept\n");
    write_badge_refdefs_and_links_to_two(links, &mut links_out, &mut refdefs_out);
    assert_eq!(
        links_out,
        "# Links and Reference Definitions\n\n[![stars][gh-stars]][gh]\n"
    );
    assert_eq!(
        refdefs_out,
        "kept\n\
         [gh]: https://github.com/o/r \"Repo\"\n\
         [gh]: https://github.com/o/r \"Repo\"\n\
         [gh-stars]: https://img.io/b.svg \"Stars\"\n"
    );
}
