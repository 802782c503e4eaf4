use mdbook_utils::parser::{reference_definitions, RefDef};
use mdbook_utils::write_from_parser::github::{apply_rule, badge_link, BadgeError};
use mdbook_utils::link::rules::{find_rule, github_rule, global_rules, Rule};
use mdbook_utils::{
    generate_badges, keep_inline_links, write_all_links, write_inline_links, write_refdefs_to,
};
use mdbook_utils::link::model::{LinkBuilder, LinkKind};

const DOCUMENT: &str = "[hello][x] and [inline](https://a.io \"T\") and <https://auto.io>\n\n[x]: https://x.io\n";

#[test]
fn all_links_of_a_document() {
    let text = write_all_links(DOCUMENT).expect("a balanced document");
    assert_eq!(
        text,
        "# Links\n\n\
         [hello][x]\n\n[x]: https://x.io\n\n\
         [inline][inline]\n\n[inline]: https://a.io \"T\"\n\n\
         [https://auto.io][https://auto.io]\n\n[https://auto.io]: https://auto.io\n\n"
    );
}

#[test]
fn all_links_of_a_document_without_links() {
    assert_eq!(write_all_links("# Title\n\nNo link.\n"), Ok("# Links\n\n".to_string()));
}

#[test]
fn inline_links_of_a_document() {
    let text = write_inline_links(DOCUMENT).expect("a balanced document");
    assert_eq!(
        text,
        "# Links\n\n\
         [inline][inline]\n\n[inline]: https://a.io \"T\"\n\n\
         [https://auto.io][https://auto.io]\n\n[https://auto.io]: https://auto.io\n\n"
    );
}

#[test]
fn keep_inline_links_keeps_inline_and_autolinks() {
    let kinds = vec![
        LinkKind::Reference,
        LinkKind::Inline,
        LinkKind::Collapsed,
        LinkKind::Autolink,
        LinkKind::Shortcut,
        LinkKind::Email,
        LinkKind::Inline,
    ];
    let mut links = Vec::new();
    for (i, kind) in kinds.into_iter().enumerate() {
        links.push(LinkBuilder::from_type_url_title(kind, &i.to_string(), "", "l").build());
    }
    links.push(LinkBuilder::default().set_url("none").build());
    let kept = keep_inline_links(links);
    let urls: Vec<&str> = kept.iter().map(|l| l.get_url()).collect();
    assert_eq!(urls, vec!["1", "3", "6"]);
}

#[test]
fn reference_definitions_are_sorted_by_label() {
    let defs = reference_definitions(
        "[b]: https://b.io \"Bee\"\n[c]: <https://c.io>\n[a]: https://a.io\n[B]: https://upper.io\n",
    );
    let found: Vec<(&str, &str, Option<&str>)> =
        defs.iter().map(|d| (d.label.as_str(), d.dest.as_str(), d.title.as_deref())).collect();
    assert_eq!(
        found,
        vec![
            ("a", "https://a.io", None),
            ("b", "https://b.io", Some("Bee")),
            ("c", "https://c.io", None),
        ]
    );
}

#[test]
fn reference_definitions_of_a_document_without_any() {
    assert!(reference_definitions("Just [text](https://a.io).").is_empty());
}

#[test]
fn refdefs_are_written_one_per_line() {
    let text = write_refdefs_to("Text [b] and [a].\n\n[b]: https://b.io \"Bee\"\n[a]: https://a.io\n");
    assert_eq!(text, "[a]: https://a.io\n[b]: https://b.io \"Bee\"\n");
}

#[test]
fn refdef_becomes_a_link() {
    let def = RefDef {
        label: "l".to_string(),
        dest: "https://d.io".to_string(),
        title: Some("T".to_string()),
    };
    let link = def.to_link();
    assert_eq!(link.get_label(), "l");
    assert_eq!(link.get_url(), "https://d.io");
    assert_eq!(link.get_title(), Some("T"));
    assert_eq!(link.get_text(), "");
    assert_eq!(link.get_link_type(), None);
    assert!(link.get_image().is_none());
    let untitled = RefDef { label: "l".to_string(), dest: "d".to_string(), title: None };
    assert_eq!(untitled.to_link().get_title(), None);
    assert_eq!(def.to_builder().add_text("t").build().get_text(), "t");
}

#[test]
fn rule_table_holds_the_github_rule() {
    let rules = global_rules();
    assert_eq!(rules.len(), 1);
    assert_eq!(rules[0].category, "github repo");
    let rule = find_rule("github repo").expect("the rule");
    assert_eq!(rule.re, rules[0].re);
    assert_eq!(rule.badge_url_pattern, rules[0].badge_url_pattern);
    assert_eq!(github_rule().category, "github repo");
    assert!(find_rule("github").is_none());
    assert!(find_rule("").is_none());
}

fn refdef(label: &str, dest: &str) -> RefDef {
    RefDef { label: label.to_string(), dest: dest.to_string(), title: None }
}

#[test]
fn github_rule_makes_a_badge_of_a_repository() {
    let rule = github_rule();
    let link = apply_rule(&rule, &refdef("foo", "https://github.com/org/repo"))
        .expect("a pattern that is a regular expression")
        .expect("a destination that matches");
    assert_eq!(link.get_label(), "foo");
    assert_eq!(link.get_url(), "https://github.com/org/repo");
    let image = link.get_image().expect("a badge");
    assert_eq!(image.get_url(), "https://img.shields.io/github/stars/org/repo?logo=github");
    assert_eq!(image.get_label(), "foo-badge");
}

#[test]
fn github_rule_passes_over_other_destinations() {
    let rule = github_rule();
    for dest in [
        "https://example.com",
        "https://github.com/org",
        "https://github.com/org/repo/issues",
        "https://gitlab.com/org/repo",
        "see https://github.com/org/repo",
    ] {
        let made = apply_rule(&rule, &refdef("foo", dest)).expect("a regular expression");
        assert!(made.is_none(), "{}", dest);
    }
}

#[test]
fn github_rule_takes_http_and_a_trailing_slash() {
    let rule = github_rule();
    let link = apply_rule(&rule, &refdef("r", "http://github.com/john-cd/mdbook-utils/"))
        .expect("a regular expression")
        .expect("a match");
    assert_eq!(
        link.get_image().expect("a badge").get_url(),
        "https://img.shields.io/github/stars/john-cd/mdbook-utils?logo=github"
    );
}

#[test]
fn a_rule_with_a_broken_pattern_is_refused() {
    let rule = Rule { category: "broken", re: "(unclosed", badge_url_pattern: "x" };
    assert_eq!(
        apply_rule(&rule, &refdef("l", "https://a.io")).err(),
        Some(BadgeError::InvalidPattern)
    );
}

#[test]
fn a_rule_replaces_the_first_match_only() {
    let rule = Rule { category: "letters", re: "b+", badge_url_pattern: "<$0>" };
    let link = apply_rule(&rule, &refdef("l", "abbcbd")).expect("a pattern").expect("a match");
    assert_eq!(link.get_image().expect("a badge").get_url(), "a<bb>cbd");
}

#[test]
fn badge_link_holds_label_destination_and_image() {
    let link = badge_link(&refdef("l", "https://d.io"), "https://img.io/b");
    assert_eq!(link.get_label(), "l");
    assert_eq!(link.get_url(), "https://d.io");
    assert_eq!(link.get_title(), None);
    assert_eq!(link.get_text(), "");
    let image = link.get_image().expect("a badge");
    assert_eq!(image.get_url(), "https://img.io/b");
    assert_eq!(image.get_label(), "l-badge");
    assert_eq!(link.to_link_with_badge(), "[![][l-badge]][l]");
}

#[test]
fn badges_of_a_document() {
    let text = generate_badges(
        "[foo]: https://github.com/org/repo\n[bar]: https://example.com\n[abc]: https://github.com/a/b\n",
    )
    .expect("a rule that can be applied");
    assert_eq!(
        text,
        "# Links and Reference Definitions\n\n\
         [![][abc-badge]][abc]\n\
         [![][foo-badge]][foo]\n\
         [abc]: https://github.com/a/b\n\
         [abc]: https://github.com/a/b\n\
         [abc-badge]: https://img.shields.io/github/stars/a/b?logo=github\n\
         [foo]: https://github.com/org/repo\n\
         [foo]: https://github.com/org/repo\n\
         [foo-badge]: https://img.shields.io/github/stars/org/repo?logo=github\n"
    );
}

#[test]
fn badges_of_a_document_without_repositories() {
    assert_eq!(
        generate_badges("[bar]: https://example.com\n"),
        Ok("# Links and Reference Definitions\n\n".to_string())
    );
}
