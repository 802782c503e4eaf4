//! Link extraction from Markdown event streams, re-rendering of the
//! extracted links in several Markdown forms, badge synthesis and sitemap
//! assembly.

pub mod link;
pub mod markdown;
pub mod order;
pub mod parser;
pub mod patterns;
pub mod sitemap;
pub mod text;
pub mod write_from_parser;

use vstd::prelude::*;
use vstd::string::*;
use crate::link::model::{link_views, Link, LinkKind, LinkView};
use crate::link::write::{reference_style, write_reference_style_links_to, written_all};
use crate::parser::extract_links::{extract_links, extraction, ExtractError};
use crate::parser::{
    markdown_events, reference_definitions, refdef_views, sorted_refdefs, tokenize, RefDefView,
};
use crate::sitemap::{
    base_checked, check_base, destinations, is_sitemap_of, Sitemap, SitemapError,
};
use crate::write_from_parser::github::{
    badge_text, rule_applied_to_all, write_github_repo_badge_refdefs, BadgeError,
};
use crate::write_from_parser::write_refdefs::definition_lines;
use crate::link::rules::github_repo_rule;

verus! {

/// The links that a Markdown document holds, or the error where its
/// events are not balanced.
pub open spec fn links_of(markdown: Seq<char>) -> Result<Seq<LinkView>, ExtractError> {
    extraction(markdown_events(markdown, 14))
}

/// The list of links that [`write_all_links`] writes: the heading
/// `# Links`, a blank line, and each link as a reference link and its
/// definition, followed by a blank line.
pub open spec fn link_list(links: Seq<LinkView>) -> Seq<char> {
    "# Links\n\n"@ + written_all(links, reference_style(), "\n"@)
}

/// The link was written inline or as an autolink, not by reference.
pub open spec fn is_inline_or_autolink(link: LinkView) -> bool {
    link.link_kind == Some(LinkKind::Inline) || link.link_kind == Some(LinkKind::Autolink)
}

/// The links of `links` that were written inline or as autolinks, in
/// order.
pub open spec fn inline_links(links: Seq<LinkView>) -> Seq<LinkView>
    decreases links.len(),
{
    if links.len() == 0 {
        Seq::empty()
    } else if is_inline_or_autolink(links.last()) {
        inline_links(links.drop_last()).push(links.last())
    } else {
        inline_links(links.drop_last())
    }
}

/// Keeps the links that were written inline or as autolinks.
pub fn keep_inline_links(links: Vec<Link>) -> (kept: Vec<Link>)
    ensures
        link_views(kept@) == inline_links(link_views(links@)),
{
    broadcast use vstd::std_specs::vec::axiom_spec_into_iter;

    let ghost all = link_views(links@);
    let mut kept: Vec<Link> = Vec::new();
    assert(link_views(kept@) =~= Seq::<LinkView>::empty());
    assert(all.take(0) =~= Seq::<LinkView>::empty());
    for link in it: links
        invariant
            all == link_views(it.seq()),
            link_views(kept@) == inline_links(all.take(it.index() as int)),
    {
        let ghost n = it.index() as int;
        let ghost next = all.take(n + 1);
        let ghost before = link_views(kept@);
        assert(next.drop_last() =~= all.take(n));
        assert(next.last() == link@);
        let inline = match link.get_link_type() {
            Some(LinkKind::Inline) => true,
            Some(LinkKind::Autolink) => true,
            _ => false,
        };
        if inline {
            kept.push(link);
            assert(link_views(kept@) =~= before.push(link@));
        }
    }
    assert(all.take(all.len() as int) =~= all);
    kept
}

/// Writes the list of all links of a Markdown document: each as a
/// reference link and its definition. A document whose events are not
/// balanced is refused.
pub fn write_all_links(markdown: &str) -> (r: Result<String, ExtractError>)
    ensures
        match links_of(markdown@) {
            Ok(links) => r matches Ok(text) && text@ == link_list(links),
            Err(e) => r == Err::<String, ExtractError>(e),
        },
{
    let events = tokenize(markdown);
    match extract_links(&events) {
        Err(e) => Err(e),
        Ok(links) => {
            let mut text = String::new();
            write_reference_style_links_to(links, &mut text);
            assert(text@ =~= link_list(link_views(links@)));
            Ok(text)
        },
    }
}

/// Writes the list of the links of a Markdown document that are written
/// inline or as autolinks, that is not by reference: each as a reference
/// link and its definition. A document whose events are not balanced is
/// refused.
pub fn write_inline_links(markdown: &str) -> (r: Result<String, ExtractError>)
    ensures
        match links_of(markdown@) {
            Ok(links) => r matches Ok(text) && text@ == link_list(inline_links(links)),
            Err(e) => r == Err::<String, ExtractError>(e),
        },
{
    let events = tokenize(markdown);
    match extract_links(&events) {
        Err(e) => Err(e),
        Ok(links) => {
            let kept = keep_inline_links(links);
            let mut text = String::new();
            write_reference_style_links_to(kept, &mut text);
            assert(text@ =~= link_list(link_views(kept@)));
            Ok(text)
        },
    }
}

/// Writes the reference definitions of a Markdown document, sorted by
/// label, one per line.
pub fn write_refdefs_to(markdown: &str) -> (text: String)
    ensures
        text@ == definition_lines(sorted_refdefs(markdown@)),
{
    let defs = reference_definitions(markdown);
    let mut text = String::new();
    crate::write_from_parser::write_refdefs::write_refdefs_to(&defs, &mut text);
    assert(text@ =~= definition_lines(refdef_views(defs@)));
    text
}

/// What [`generate_badges`] writes for the definitions `defs`: the
/// badges of those that point to a repository on GitHub.
pub open spec fn badges_of(defs: Seq<RefDefView>) -> Result<Seq<char>, BadgeError> {
    match rule_applied_to_all(github_repo_rule(), defs) {
        Ok(links) => Ok(badge_text(links)),
        Err(e) => Err(e),
    }
}

/// Makes badges for the reference definitions of a Markdown document that
/// point to a repository on GitHub, taken in the order of their labels:
/// the links around their badges, then the definitions of links and
/// badges. Definitions that point elsewhere are passed over.
pub fn generate_badges(markdown: &str) -> (r: Result<String, BadgeError>)
    ensures
        match badges_of(sorted_refdefs(markdown@)) {
            Ok(text) => r matches Ok(written) && written@ == text,
            Err(e) => r == Err::<String, BadgeError>(e),
        },
{
    let defs = reference_definitions(markdown);
    let mut text = String::new();
    match write_github_repo_badge_refdefs(&defs, &mut text) {
        Ok(()) => {
            proof {
                if let Ok(links) = rule_applied_to_all(github_repo_rule(), refdef_views(defs@)) {
                    assert(text@ =~= badge_text(links));
                }
            }
            Ok(text)
        },
        Err(e) => Err(e),
    }
}

/// Why no sitemap came of a table of contents.
#[derive(Clone, Copy, Debug, PartialEq, Eq, Structural)]
pub enum GenerateSitemapError {
    /// The base URL does not serve.
    Base(SitemapError),
    /// The events of the table of contents are not balanced.
    Links(ExtractError),
}

/// Makes the sitemap of a book from its table of contents, in Markdown:
/// the pages that its links name, as URLs under `base_url`. The base URL
/// is looked at first.
pub fn generate_sitemap(summary_markdown: &str, base_url: &str) -> (r: Result<
    Sitemap,
    GenerateSitemapError,
>)
    ensures
        match base_checked(base_url@) {
            Err(e) => r == Err::<Sitemap, GenerateSitemapError>(GenerateSitemapError::Base(e)),
            Ok(()) => match links_of(summary_markdown@) {
                Err(e) => r == Err::<Sitemap, GenerateSitemapError>(
                    GenerateSitemapError::Links(e),
                ),
                Ok(links) => r matches Ok(sitemap) && is_sitemap_of(
                    sitemap,
                    destinations(links),
                    base_url@,
                ),
            },
        },
{
    match check_base(base_url) {
        Err(e) => Err(GenerateSitemapError::Base(e)),
        Ok(()) => {
            let events = tokenize(summary_markdown);
            match extract_links(&events) {
                Err(e) => Err(GenerateSitemapError::Links(e)),
                Ok(links) => match crate::sitemap::generate_sitemap(links, base_url) {
                    Ok(sitemap) => Ok(sitemap),
                    Err(e) => Err(GenerateSitemapError::Base(e)),
                },
            }
        },
    }
}

} // verus!
