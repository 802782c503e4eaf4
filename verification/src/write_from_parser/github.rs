//! Badges for the reference definitions that point to a repository on
//! GitHub.

use vstd::prelude::*;
use vstd::string::*;
use crate::link::model::{link_views, Link, LinkBuilder, LinkDraft, LinkView};
use crate::link::rules::{github_repo_rule, github_rule, Rule};
use crate::link::write::{
    badge_definitions, badge_link_only, write_badge_refdefs_and_links_to_two, written_all,
};
use crate::parser::{refdef_views, RefDef, RefDefView};
use crate::patterns::{is_match, regex_is_match, regex_replaced, replace};

verus! {

/// Why no badge could be made.
#[derive(Clone, Copy, Debug, PartialEq, Eq, Structural)]
pub enum BadgeError {
    /// The pattern of the rule is no regular expression.
    InvalidPattern,
}

/// The link with a badge that stands for a definition: its label and its
/// destination are those of the definition, and its image is at
/// `badge_url`.
pub open spec fn badge_draft(def: RefDefView, badge_url: Seq<char>) -> LinkDraft {
    LinkDraft::empty().with_label(def.label).with_url(def.dest).with_image_url(badge_url)
}

/// What a rule makes of a definition: a link with a badge where the
/// destination matches the pattern of the rule, nothing where it does
/// not.
pub open spec fn rule_applied(rule: Rule, def: RefDefView) -> Result<Option<LinkView>, BadgeError> {
    match regex_is_match(rule.re@, def.dest) {
        None => Err(BadgeError::InvalidPattern),
        Some(false) => Ok(None),
        Some(true) => match regex_replaced(rule.re@, def.dest, rule.badge_url_pattern@) {
            None => Err(BadgeError::InvalidPattern),
            Some(badge_url) => Ok(Some(badge_draft(def, badge_url).built())),
        },
    }
}

/// What a rule makes of a list of definitions: the links with a badge of
/// those that match, in order.
pub open spec fn rule_applied_to_all(rule: Rule, defs: Seq<RefDefView>) -> Result<
    Seq<LinkView>,
    BadgeError,
>
    decreases defs.len(),
{
    if defs.len() == 0 {
        Ok(Seq::empty())
    } else {
        match rule_applied_to_all(rule, defs.drop_last()) {
            Err(e) => Err(e),
            Ok(links) => match rule_applied(rule, defs.last()) {
                Err(e) => Err(e),
                Ok(None) => Ok(links),
                Ok(Some(link)) => Ok(links.push(link)),
            },
        }
    }
}

/// A definition whose destination matches the pattern of a rule gets a
/// badge: a link with the label and the destination of the definition,
/// unchanged, whose image is at the URL that the rule derives from the
/// destination. A document that holds this definition alone gets this
/// link alone.
pub proof fn lemma_badge_of_matching_definition(
    rule: Rule,
    def: RefDefView,
    badge_url: Seq<char>,
) -> (link: LinkView)
    requires
        regex_is_match(rule.re@, def.dest) == Some(true),
        regex_replaced(rule.re@, def.dest, rule.badge_url_pattern@) == Some(badge_url),
    ensures
        rule_applied(rule, def) == Ok::<Option<LinkView>, BadgeError>(Some(link)),
        rule_applied_to_all(rule, seq![def]) == Ok::<Seq<LinkView>, BadgeError>(seq![link]),
        link.url == def.dest,
        def.label.len() > 0 ==> link.label == def.label,
        link.image is Some,
        link.image.unwrap().url == badge_url,
{
    let link = badge_draft(def, badge_url).built();
    let one = seq![def];
    assert(one.drop_last() =~= Seq::<RefDefView>::empty());
    assert(one.last() == def);
    assert(rule_applied_to_all(rule, one.drop_last()) == Ok::<Seq<LinkView>, BadgeError>(
        Seq::empty(),
    ));
    assert(Seq::<LinkView>::empty().push(link) =~= seq![link]);
    link
}

/// A definition whose destination does not match the pattern of a rule
/// gets no badge: the badges of a list are those of the list without it.
pub proof fn lemma_no_badge_of_other_definition(rule: Rule, defs: Seq<RefDefView>, def: RefDefView)
    requires
        regex_is_match(rule.re@, def.dest) == Some(false),
    ensures
        rule_applied(rule, def) == Ok::<Option<LinkView>, BadgeError>(None),
        rule_applied_to_all(rule, defs.push(def)) == rule_applied_to_all(rule, defs),
{
    assert(defs.push(def).drop_last() =~= defs);
}

/// The view of an optional link.
pub open spec fn link_view(link: Option<Link>) -> Option<LinkView> {
    match link {
        Some(link) => Some(link@),
        None => None,
    }
}

/// The view of the links that a rule made, or of the error.
pub open spec fn links_view(links: Result<Vec<Link>, BadgeError>) -> Result<
    Seq<LinkView>,
    BadgeError,
> {
    match links {
        Ok(links) => Ok(link_views(links@)),
        Err(e) => Err(e),
    }
}

/// The link with a badge that stands for `def`, its image at `badge_url`.
pub fn badge_link(def: &RefDef, badge_url: &str) -> (link: Link)
    ensures
        link@ == badge_draft(def@, badge_url@).built(),
{
    LinkBuilder::default().set_label(def.label.as_str()).set_url(def.dest.as_str()).set_image_url(
        badge_url,
    ).build()
}

/// Applies `rule` to `def`: where the destination matches the pattern of
/// the rule, makes the link with a badge whose image URL the rule derives
/// from the destination.
pub fn apply_rule(rule: &Rule, def: &RefDef) -> (r: Result<Option<Link>, BadgeError>)
    ensures
        match r {
            Ok(link) => rule_applied(*rule, def@) == Ok::<Option<LinkView>, BadgeError>(
                link_view(link),
            ),
            Err(e) => rule_applied(*rule, def@) == Err::<Option<LinkView>, BadgeError>(e),
        },
{
    match is_match(rule.re, def.dest.as_str()) {
        None => Err(BadgeError::InvalidPattern),
        Some(false) => Ok(None),
        Some(true) => match replace(rule.re, def.dest.as_str(), rule.badge_url_pattern) {
            None => Err(BadgeError::InvalidPattern),
            Some(badge_url) => Ok(Some(badge_link(def, badge_url.as_str()))),
        },
    }
}

/// Applies `rule` to each definition of `defs`: the links with a badge of
/// those that match, in order. Definitions that do not match are passed
/// over.
pub fn apply_rule_to_all(rule: &Rule, defs: &Vec<RefDef>) -> (r: Result<Vec<Link>, BadgeError>)
    ensures
        links_view(r) == rule_applied_to_all(*rule, refdef_views(defs@)),
{
    let ghost all = refdef_views(defs@);
    let mut links: Vec<Link> = Vec::new();
    let mut i: usize = 0;
    assert(all.take(0) =~= Seq::<RefDefView>::empty());
    assert(link_views(links@) =~= Seq::<LinkView>::empty());
    while i < defs.len()
        invariant
            i <= defs.len(),
            all == refdef_views(defs@),
            rule_applied_to_all(*rule, all.take(i as int)) == Ok::<Seq<LinkView>, BadgeError>(
                link_views(links@),
            ),
        decreases defs.len() - i,
    {
        let ghost next = all.take(i + 1);
        assert(next.drop_last() =~= all.take(i as int));
        assert(next.last() == defs@[i as int]@);
        let ghost before = link_views(links@);
        match apply_rule(rule, &defs[i]) {
            Err(e) => {
                proof {
                    lemma_error_stays(*rule, all, i + 1);
                }
                return Err(e);
            },
            Ok(None) => {},
            Ok(Some(link)) => {
                links.push(link);
                assert(link_views(links@) =~= before.push(link@));
            },
        }
        i += 1;
    }
    assert(all.take(defs.len() as int) =~= all);
    Ok(links)
}

/// Once a definition is refused, the whole list is.
proof fn lemma_error_stays(rule: Rule, defs: Seq<RefDefView>, n: int)
    requires
        0 <= n <= defs.len(),
        rule_applied_to_all(rule, defs.take(n)) is Err,
    ensures
        rule_applied_to_all(rule, defs) == rule_applied_to_all(rule, defs.take(n)),
    decreases defs.len() - n,
{
    if n == defs.len() {
        assert(defs.take(n) =~= defs);
    } else {
        let next = defs.take(n + 1);
        assert(next.drop_last() =~= defs.take(n));
        lemma_error_stays(rule, defs, n + 1);
    }
}

/// What [`write_github_repo_badge_refdefs`] writes for the links with a
/// badge: a heading, each link around its badge, then the definitions
/// that the links refer to.
pub open spec fn badge_text(links: Seq<LinkView>) -> Seq<char> {
    "# Links and Reference Definitions\n\n"@ + written_all(links, badge_link_only(), Seq::empty())
        + written_all(links, badge_definitions(), Seq::empty())
}

/// Appends to `w` the badges of the definitions of `defs` that point to a
/// repository on GitHub: the links around their badges first, the
/// definitions of links and badges after them. Nothing is written where
/// the rule cannot be applied.
pub fn write_github_repo_badge_refdefs(defs: &Vec<RefDef>, w: &mut String) -> (r: Result<
    (),
    BadgeError,
>)
    ensures
        match rule_applied_to_all(github_repo_rule(), refdef_views(defs@)) {
            Ok(links) => r is Ok && final(w)@ == old(w)@ + badge_text(links),
            Err(e) => r == Err::<(), BadgeError>(e) && final(w)@ == old(w)@,
        },
{
    let rule = github_rule();
    match apply_rule_to_all(&rule, defs) {
        Err(e) => Err(e),
        Ok(links) => {
            let ghost views = link_views(links@);
            let mut refdef_buffer = String::new();
            write_badge_refdefs_and_links_to_two(links, w, &mut refdef_buffer);
            w.append(refdef_buffer.as_str());
            assert(w@ =~= old(w)@ + badge_text(views));
            Ok(())
        },
    }
}

} // verus!
