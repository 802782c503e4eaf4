use mdbook_utils::order::{compare, sort_by_key, Order};
use mdbook_utils::parser::RefDef;
use mdbook_utils::text::{chars_of, ends_with, occurs_at_index, push_all, replace_all};

fn chars(s: &str) -> Vec<char> {
    s.chars().collect()
}

#[test]
fn chars_of_a_string() {
    assert_eq!(chars_of("a\u{e9}\u{4e2d}\u{1f600}"), vec!['a', '\u{e9}', '\u{4e2d}', '\u{1f600}']);
    assert!(chars_of("").is_empty());
}

#[test]
fn push_all_appends_in_order() {
    let mut out = chars("ab");
    push_all(&mut out, &chars("cd"));
    push_all(&mut out, &chars(""));
    assert_eq!(out, chars("abcd"));
}

#[test]
fn occurrences_are_found_where_they_are() {
    let s = chars("a.md.md");
    let pat = chars(".md");
    assert!(!occurs_at_index(&s, &pat, 0));
    assert!(occurs_at_index(&s, &pat, 1));
    assert!(!occurs_at_index(&s, &pat, 2));
    assert!(occurs_at_index(&s, &pat, 4));
    assert!(!occurs_at_index(&s, &pat, 5));
    assert!(!occurs_at_index(&s, &pat, 7));
    assert!(!occurs_at_index(&s, &pat, 100));
    assert!(occurs_at_index(&s, &chars(""), 7));
    assert!(!occurs_at_index(&s, &chars(""), 8));
    assert!(!occurs_at_index(&chars("ab"), &chars("abc"), 0));
}

#[test]
fn ends_with_tells_suffixes() {
    assert!(ends_with("SUMMARY.md", "SUMMARY.md"));
    assert!(ends_with("src/SUMMARY.md", "SUMMARY.md"));
    assert!(ends_with("anything", ""));
    assert!(ends_with("", ""));
    assert!(!ends_with("", "a"));
    assert!(!ends_with("UMMARY.md", "SUMMARY.md"));
    assert!(!ends_with("SUMMARY.md ", "SUMMARY.md"));
    assert!(ends_with("\u{4e2d}\u{6587}", "\u{6587}"));
}

#[test]
fn replace_all_replaces_each_occurrence() {
    assert_eq!(replace_all("a.md b.md", ".md", ".html"), "a.html b.html");
    assert_eq!(replace_all("aaa", "aa", "b"), "ba");
    assert_eq!(replace_all("aaaa", "aa", "b"), "bb");
    assert_eq!(replace_all("abc", "x", "y"), "abc");
    assert_eq!(replace_all("abc", "abc", ""), "");
    assert_eq!(replace_all("", "a", "b"), "");
    assert_eq!(replace_all("\u{e9}t\u{e9}", "\u{e9}", "e"), "ete");
}

#[test]
fn replace_all_is_what_the_standard_library_does() {
    for (s, from, to) in [
        ("intro.md", "intro.md", "index.md"),
        ("a/b/intro.md#x", ".md", ".html"),
        ("ababab", "aba", "-"),
        ("xxxxx", "xx", "xxx"),
        ("no match", "zz", "y"),
        ("end.", ".", ".."),
    ] {
        assert_eq!(replace_all(s, from, to), s.replace(from, to));
    }
}

#[test]
fn replace_all_of_nothing_keeps_the_text() {
    assert_eq!(replace_all("abc", "", "x"), "abc");
}

#[test]
fn compare_orders_strings() {
    assert_eq!(compare("a", "b"), Order::Before);
    assert_eq!(compare("b", "a"), Order::After);
    assert_eq!(compare("a", "a"), Order::Same);
    assert_eq!(compare("", ""), Order::Same);
    assert_eq!(compare("", "a"), Order::Before);
    assert_eq!(compare("a", ""), Order::After);
    assert_eq!(compare("a", "ab"), Order::Before);
    assert_eq!(compare("B", "a"), Order::Before);
    assert_eq!(compare("z", "\u{e9}"), Order::Before);
    assert_eq!(compare("\u{ffff}", "\u{10000}"), Order::Before);
}

#[test]
fn compare_is_the_order_of_strings() {
    let samples = ["", "a", "A", "ab", "b", "\u{e9}", "\u{4e2d}", "\u{1f600}", "a\u{0}", "~"];
    for a in samples {
        for b in samples {
            let expected = match a.cmp(b) {
                std::cmp::Ordering::Less => Order::Before,
                std::cmp::Ordering::Equal => Order::Same,
                std::cmp::Ordering::Greater => Order::After,
            };
            assert_eq!(compare(a, b), expected, "{:?} {:?}", a, b);
        }
    }
}

#[test]
fn sort_by_key_sorts_and_keeps_each_key_once() {
    let sorted = sort_by_key(vec![
        "pear".to_string(),
        "apple".to_string(),
        "fig".to_string(),
        "apple".to_string(),
        "Fig".to_string(),
        "pear".to_string(),
    ]);
    assert_eq!(sorted, vec!["Fig", "apple", "fig", "pear"]);
    assert!(sort_by_key(Vec::<String>::new()).is_empty());
}

#[test]
fn sort_by_key_is_sort_then_dedup() {
    let items: Vec<String> =
        ["d", "b", "a", "c", "b", "a", "e", "", "\u{e9}", "aa", "a"].iter().map(|s| s.to_string()).collect();
    let mut expected = items.clone();
    expected.sort();
    expected.dedup();
    assert_eq!(sort_by_key(items), expected);
}

#[test]
fn sort_by_key_keeps_the_first_of_a_key() {
    let def = |label: &str, dest: &str| RefDef {
        label: label.to_string(),
        dest: dest.to_string(),
        title: None,
    };
    let sorted = sort_by_key(vec![def("b", "1"), def("a", "2"), def("b", "3"), def("a", "4")]);
    let found: Vec<(&str, &str)> =
        sorted.iter().map(|d| (d.label.as_str(), d.dest.as_str())).collect();
    assert_eq!(found, vec![("a", "2"), ("b", "1")]);
}
