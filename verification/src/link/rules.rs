//! The rules that derive a badge from the destination of a link.

use vstd::prelude::*;
use vstd::string::*;
use crate::order::{compare, Order};

verus! {

/// A rule: destinations that match `re` get a badge, whose image URL is
/// `badge_url_pattern` with the groups that `re` captured put in.
#[derive(Clone, Copy, Debug)]
pub struct Rule {
    /// The name of the category of links that the rule is for.
    pub category: &'static str,
    /// The regular expression that a destination of the category matches.
    pub re: &'static str,
    /// The URL of the badge image; `${name}` stands for what the group
    /// `name` of `re` captured.
    pub badge_url_pattern: &'static str,
}

/// The rule for repositories on GitHub: the badge shows the stars of the
/// repository.
pub open spec fn github_repo_rule() -> Rule {
    Rule {
        category: "github repo",
        re: "^https?://github\\.com/(?<owner>[A-Za-z0-9_.-]+)/(?<repo>[A-Za-z0-9_.-]+)/?$",
        badge_url_pattern: "https://img.shields.io/github/stars/${owner}/${repo}?logo=github",
    }
}

/// The rules, in the order in which they are looked up.
pub open spec fn rule_table() -> Seq<Rule> {
    seq![github_repo_rule()]
}

/// The first rule of `rules` for `category`, if there is one.
pub open spec fn rule_for(rules: Seq<Rule>, category: Seq<char>) -> Option<Rule>
    decreases rules.len(),
{
    if rules.len() == 0 {
        None
    } else if rules[0].category@ == category {
        Some(rules[0])
    } else {
        rule_for(rules.drop_first(), category)
    }
}

/// The rules, in the order in which they are looked up.
pub fn global_rules() -> (rules: Vec<Rule>)
    ensures
        rules@ == rule_table(),
{
    let mut rules: Vec<Rule> = Vec::new();
    rules.push(
        Rule {
            category: "github repo",
            re: "^https?://github\\.com/(?<owner>[A-Za-z0-9_.-]+)/(?<repo>[A-Za-z0-9_.-]+)/?$",
            badge_url_pattern: "https://img.shields.io/github/stars/${owner}/${repo}?logo=github",
        },
    );
    assert(rules@ =~= rule_table());
    rules
}

/// Looks up the rule for a category of links.
pub fn find_rule(category: &str) -> (rule: Option<Rule>)
    ensures
        rule == rule_for(rule_table(), category@),
{
    let rules = global_rules();
    let mut i: usize = 0;
    assert(rules@.skip(0) =~= rules@);
    while i < rules.len()
        invariant
            i <= rules.len(),
            rules@ == rule_table(),
            rule_for(rules@.skip(i as int), category@) == rule_for(rule_table(), category@),
        decreases rules.len() - i,
    {
        let ghost rest = rules@.skip(i as int);
        assert(rest[0] == rules@[i as int]);
        assert(rest.drop_first() =~= rules@.skip(i + 1));
        match compare(rules[i].category, category) {
            Order::Same => {
                return Some(rules[i]);
            },
            _ => {},
        }
        i += 1;
    }
    None
}

/// The rule for repositories on GitHub.
pub fn github_rule() -> (rule: Rule)
    ensures
        rule == github_repo_rule(),
        rule_for(rule_table(), "github repo"@) == Some(rule),
{
    let rule = find_rule("github repo");
    assert(rule_table()[0] == github_repo_rule());
    rule.unwrap()
}

} // verus!
