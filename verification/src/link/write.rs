//! Writing links to a text, in the forms that a set of flags selects.

use vstd::prelude::*;
use vstd::string::*;
use crate::link::flags::{LinkWrite, LinkWriteFlags};
use crate::link::model::{link_views, Link, LinkView};

verus! {

/// `s`, ended by a newline.
pub open spec fn line(s: Seq<char>) -> Seq<char> {
    s + "\n"@
}

/// `s` where `b` holds, nothing where it does not.
pub open spec fn when(b: bool, s: Seq<char>) -> Seq<char> {
    if b {
        s
    } else {
        Seq::empty()
    }
}

/// A link form is among `flags`.
pub open spec fn has_link_form(flags: Set<LinkWrite>) -> bool {
    flags.contains(LinkWrite::InlineLink) || flags.contains(LinkWrite::ReferenceLink)
        || flags.contains(LinkWrite::LinkWithBadge)
}

/// A definition form is among `flags`.
pub open spec fn has_definition_form(flags: Set<LinkWrite>) -> bool {
    flags.contains(LinkWrite::ReferenceDefinition) || flags.contains(
        LinkWrite::BadgeReferenceDefinition,
    )
}

/// The text of one form of a link.
pub open spec fn form_text(l: LinkView, form: LinkWrite) -> Seq<char> {
    match form {
        LinkWrite::InlineLink => l.inline_link(),
        LinkWrite::ReferenceLink => l.reference_link(),
        LinkWrite::ReferenceDefinition => l.reference_definition(),
        LinkWrite::LinkWithBadge => l.link_with_badge(),
        LinkWrite::BadgeReferenceDefinition => l.badge_reference_definition(),
    }
}

/// The line of `form`, where it is among `flags`.
pub open spec fn form_line(l: LinkView, flags: Set<LinkWrite>, form: LinkWrite) -> Seq<char> {
    when(flags.contains(form), line(form_text(l, form)))
}

/// What [`write`] appends for one link: the forms among `flags`, one per
/// line, always in this order; a blank line parts the link forms from the
/// definition forms where both kinds are asked for.
pub open spec fn written(l: LinkView, flags: Set<LinkWrite>) -> Seq<char> {
    form_line(l, flags, LinkWrite::InlineLink) + form_line(l, flags, LinkWrite::ReferenceLink)
        + form_line(l, flags, LinkWrite::LinkWithBadge) + when(
        has_link_form(flags) && has_definition_form(flags),
        "\n"@,
    ) + form_line(l, flags, LinkWrite::ReferenceDefinition) + form_line(
        l,
        flags,
        LinkWrite::BadgeReferenceDefinition,
    )
}

/// What is written for a list of links: for each in turn, its forms and
/// then `after`.
pub open spec fn written_all(links: Seq<LinkView>, flags: Set<LinkWrite>, after: Seq<char>) -> Seq<
    char,
>
    decreases links.len(),
{
    if links.len() == 0 {
        Seq::empty()
    } else {
        written_all(links.drop_last(), flags, after) + written(links.last(), flags) + after
    }
}

/// The forms that [`write_reference_style_links_to`] writes.
pub open spec fn reference_style() -> Set<LinkWrite> {
    set![LinkWrite::ReferenceLink, LinkWrite::ReferenceDefinition]
}

/// The forms that [`write_refdefs_to`] writes.
pub open spec fn definition_only() -> Set<LinkWrite> {
    set![LinkWrite::ReferenceDefinition]
}

/// The form that [`write_badge_refdefs_and_links_to_two`] writes to its
/// first text.
pub open spec fn badge_link_only() -> Set<LinkWrite> {
    set![LinkWrite::LinkWithBadge]
}

/// The forms that [`write_badge_refdefs_and_links_to_two`] writes to its
/// second text.
pub open spec fn badge_definitions() -> Set<LinkWrite> {
    set![LinkWrite::ReferenceDefinition, LinkWrite::BadgeReferenceDefinition]
}

/// Appends `s` and a newline to `w`.
fn push_line(w: &mut String, s: &str)
    ensures
        final(w)@ == old(w)@ + line(s@),
{
    w.append(s);
    w.append("\n");
    assert(w@ =~= old(w)@ + line(s@));
}

/// The text of one form of `l`.
pub fn render(l: &Link, form: LinkWrite) -> (r: String)
    ensures
        r@ == form_text(l@, form),
{
    match form {
        LinkWrite::InlineLink => l.to_inline_link(),
        LinkWrite::ReferenceLink => l.to_reference_link(),
        LinkWrite::ReferenceDefinition => l.to_reference_definition(),
        LinkWrite::LinkWithBadge => l.to_link_with_badge(),
        LinkWrite::BadgeReferenceDefinition => l.to_badge_reference_definition(),
    }
}

/// Appends the line of `form` to `w`, where `form` is among `flags`.
fn write_form(l: &Link, flags: &LinkWriteFlags, form: LinkWrite, w: &mut String)
    ensures
        final(w)@ == old(w)@ + form_line(l@, flags@, form),
{
    if flags.contains(form) {
        push_line(w, render(l, form).as_str());
    } else {
        assert(w@ =~= old(w)@ + Seq::<char>::empty());
    }
}

/// The forms that are links.
pub open spec fn link_forms() -> Set<LinkWrite> {
    set![LinkWrite::InlineLink, LinkWrite::ReferenceLink, LinkWrite::LinkWithBadge]
}

/// The forms that are definitions.
pub open spec fn definition_forms() -> Set<LinkWrite> {
    set![LinkWrite::ReferenceDefinition, LinkWrite::BadgeReferenceDefinition]
}

/// Appends a blank line to `w`, where `flags` holds both a link form and
/// a definition form.
fn write_separator(flags: &LinkWriteFlags, w: &mut String)
    ensures
        final(w)@ == old(w)@ + when(has_link_form(flags@) && has_definition_form(flags@), "\n"@),
{
    let links = LinkWriteFlags::only(LinkWrite::InlineLink).with(LinkWrite::ReferenceLink).with(
        LinkWrite::LinkWithBadge,
    );
    let definitions = LinkWriteFlags::only(LinkWrite::ReferenceDefinition).with(
        LinkWrite::BadgeReferenceDefinition,
    );
    assert(links@ =~= link_forms());
    assert(definitions@ =~= definition_forms());
    let has_links = flags.intersects(links);
    let has_definitions = flags.intersects(definitions);
    proof {
        if has_link_form(flags@) {
            let f = if flags@.contains(LinkWrite::InlineLink) {
                LinkWrite::InlineLink
            } else if flags@.contains(LinkWrite::ReferenceLink) {
                LinkWrite::ReferenceLink
            } else {
                LinkWrite::LinkWithBadge
            };
            assert(flags@.contains(f) && links@.contains(f));
        }
        if has_definition_form(flags@) {
            let f = if flags@.contains(LinkWrite::ReferenceDefinition) {
                LinkWrite::ReferenceDefinition
            } else {
                LinkWrite::BadgeReferenceDefinition
            };
            assert(flags@.contains(f) && definitions@.contains(f));
        }
        assert(has_links == has_link_form(flags@));
        assert(has_definitions == has_definition_form(flags@));
    }
    if has_links && has_definitions {
        w.append("\n");
    } else {
        assert(w@ =~= old(w)@ + Seq::<char>::empty());
    }
}

/// Appends to `w` the forms of `l` that `flags` selects.
pub fn write(l: &Link, flags: &LinkWriteFlags, w: &mut String)
    ensures
        final(w)@ == old(w)@ + written(l@, flags@),
{
    let ghost start = w@;
    let ghost p1 = form_line(l@, flags@, LinkWrite::InlineLink);
    let ghost p2 = form_line(l@, flags@, LinkWrite::ReferenceLink);
    let ghost p3 = form_line(l@, flags@, LinkWrite::LinkWithBadge);
    let ghost p4 = when(has_link_form(flags@) && has_definition_form(flags@), "\n"@);
    let ghost p5 = form_line(l@, flags@, LinkWrite::ReferenceDefinition);
    let ghost p6 = form_line(l@, flags@, LinkWrite::BadgeReferenceDefinition);
    write_form(l, flags, LinkWrite::InlineLink, w);
    write_form(l, flags, LinkWrite::ReferenceLink, w);
    assert(w@ == start + p1 + p2);
    write_form(l, flags, LinkWrite::LinkWithBadge, w);
    assert(w@ == start + p1 + p2 + p3);
    write_separator(flags, w);
    assert(w@ == start + p1 + p2 + p3 + p4);
    write_form(l, flags, LinkWrite::ReferenceDefinition, w);
    assert(w@ == start + p1 + p2 + p3 + p4 + p5);
    write_form(l, flags, LinkWrite::BadgeReferenceDefinition, w);
    assert(w@ == start + p1 + p2 + p3 + p4 + p5 + p6);
    assert(written(l@, flags@) == p1 + p2 + p3 + p4 + p5 + p6);
    proof {
        lemma_concat(start, p1, p2, p3, p4, p5, p6);
    }
}

/// Joining a text with six parts in turn is joining it with the parts
/// joined.
proof fn lemma_concat(
    start: Seq<char>,
    p1: Seq<char>,
    p2: Seq<char>,
    p3: Seq<char>,
    p4: Seq<char>,
    p5: Seq<char>,
    p6: Seq<char>,
)
    ensures
        start + p1 + p2 + p3 + p4 + p5 + p6 == start + (p1 + p2 + p3 + p4 + p5 + p6),
{
    assert(start + p1 + p2 + p3 + p4 + p5 + p6 =~= start + (p1 + p2 + p3 + p4 + p5 + p6));
}

/// Appends to `w`, for each link in turn, the forms that `flags` selects
/// and then `after`.
fn write_all(links: &Vec<Link>, flags: &LinkWriteFlags, after: &str, w: &mut String)
    ensures
        final(w)@ == old(w)@ + written_all(link_views(links@), flags@, after@),
{
    let ghost all = link_views(links@);
    let mut i: usize = 0;
    assert(all.take(0) =~= Seq::<LinkView>::empty());
    assert(w@ =~= old(w)@ + Seq::<char>::empty());
    while i < links.len()
        invariant
            i <= links.len(),
            all == link_views(links@),
            w@ == old(w)@ + written_all(all.take(i as int), flags@, after@),
        decreases links.len() - i,
    {
        let ghost before = w@;
        write(&links[i], flags, w);
        w.append(after);
        proof {
            let next = all.take(i + 1);
            assert(next.drop_last() =~= all.take(i as int));
            assert(next.last() == links@[i as int]@);
            assert(w@ =~= old(w)@ + written_all(next, flags@, after@));
        }
        i += 1;
    }
    assert(all.take(links.len() as int) =~= all);
}

/// Appends to `link_writer` the heading `# Links`, a blank line, and each
/// link as a reference link and its definition, followed by a blank line.
pub fn write_reference_style_links_to(links: Vec<Link>, link_writer: &mut String)
    ensures
        final(link_writer)@ == old(link_writer)@ + "# Links\n\n"@ + written_all(
            link_views(links@),
            reference_style(),
            "\n"@,
        ),
{
    link_writer.append("# Links\n\n");
    let flags = LinkWriteFlags::default();
    write_all(&links, &flags, "\n", link_writer);
    assert(link_writer@ =~= old(link_writer)@ + "# Links\n\n"@ + written_all(
        link_views(links@),
        reference_style(),
        "\n"@,
    ));
}

/// Appends to `refdef_writer` the heading `# Reference Definitions`, a
/// blank line, and the definition of each link, followed by a blank line.
pub fn write_refdefs_to(links: Vec<Link>, refdef_writer: &mut String)
    ensures
        final(refdef_writer)@ == old(refdef_writer)@ + "# Reference Definitions\n\n"@
            + written_all(link_views(links@), definition_only(), "\n"@),
{
    refdef_writer.append("# Reference Definitions\n\n");
    let flags = LinkWriteFlags::only(LinkWrite::ReferenceDefinition);
    write_all(&links, &flags, "\n", refdef_writer);
    assert(refdef_writer@ =~= old(refdef_writer)@ + "# Reference Definitions\n\n"@
        + written_all(link_views(links@), definition_only(), "\n"@));
}

/// Appends to `link_writer` the heading `# Links and Reference
/// Definitions`, a blank line, and each link around its badge; appends to
/// `refdef_writer` the definitions that those links refer to.
pub fn write_badge_refdefs_and_links_to_two(
    links: Vec<Link>,
    link_writer: &mut String,
    refdef_writer: &mut String,
)
    ensures
        final(link_writer)@ == old(link_writer)@ + "# Links and Reference Definitions\n\n"@
            + written_all(link_views(links@), badge_link_only(), Seq::empty()),
        final(refdef_writer)@ == old(refdef_writer)@ + written_all(
            link_views(links@),
            badge_definitions(),
            Seq::empty(),
        ),
{
    link_writer.append("# Links and Reference Definitions\n\n");
    let link_flags = LinkWriteFlags::only(LinkWrite::LinkWithBadge);
    let refdef_flags = LinkWriteFlags::only(LinkWrite::ReferenceDefinition).with(
        LinkWrite::BadgeReferenceDefinition,
    );
    assert(refdef_flags@ =~= badge_definitions());
    proof {
        reveal_strlit("");
        assert(""@ =~= Seq::<char>::empty());
    }
    write_all(&links, &link_flags, "", link_writer);
    write_all(&links, &refdef_flags, "", refdef_writer);
    assert(link_writer@ =~= old(link_writer)@ + "# Links and Reference Definitions\n\n"@
        + written_all(link_views(links@), badge_link_only(), Seq::empty()));
}

} // verus!
