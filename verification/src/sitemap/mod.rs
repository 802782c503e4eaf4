//! The sitemap of a book: the pages that its links name, as absolute
//! URLs, sorted and each listed once.

pub mod xml;

use vstd::prelude::*;
use vstd::string::*;
use crate::link::model::{link_views, text_view, Link, LinkView};
use crate::order::{
    hold_the_same, keys, lemma_sorts_same_keys, sort_by_key, sorted_once, strictly_sorted,
};
use crate::sitemap::xml::{document, write_xml};
use crate::text::{
    chars_of, ends_at, ends_with, find_char, index_of_char, lemma_index_of_char_found, push_all,
    push_range, string_of,
};

verus! {

/// The destination names a file that never stands in a sitemap: a file
/// of reference definitions or the table of contents.
pub open spec fn is_excluded(url: Seq<char>) -> bool {
    "refs.md"@.is_suffix_of(url) || "SUMMARY.md"@.is_suffix_of(url)
}

/// Where the path of a destination ends: at its first `?` or `#`, where
/// the query or the fragment starts, or at its end.
pub open spec fn path_end(url: Seq<char>) -> int {
    let query = index_of_char(url, '?', 0);
    let fragment = index_of_char(url, '#', 0);
    if query < fragment {
        query
    } else {
        fragment
    }
}

/// The path of a destination: what stands before its query and its
/// fragment.
pub open spec fn path_of(url: Seq<char>) -> Seq<char> {
    url.take(path_end(url))
}

/// What follows the path of a destination: its query and its fragment.
pub open spec fn after_path(url: Seq<char>) -> Seq<char> {
    url.skip(path_end(url))
}

/// The file that the path names is `intro.md`: the path ends with it, and
/// it stands at the start of the path or right after a `/`.
pub open spec fn names_introduction(path: Seq<char>) -> bool {
    &&& "intro.md"@.is_suffix_of(path)
    &&& path.len() == "intro.md"@.len() || path[path.len() - "intro.md"@.len() - 1] == '/'
}

/// The file that the path names is a Markdown file: the path ends with
/// `.md`.
pub open spec fn names_markdown(path: Seq<char>) -> bool {
    ".md"@.is_suffix_of(path)
}

/// The page that a destination stands for. The file named `intro.md` is
/// the index page, `index.html`; any other Markdown file is served as
/// HTML, with `.html` for the `.md` that ends its path; what follows the
/// path stays. Any other destination is its own page.
pub open spec fn page_path(url: Seq<char>) -> Seq<char> {
    let path = path_of(url);
    if names_introduction(path) {
        path.take(path.len() - "intro.md"@.len()) + "index.html"@ + after_path(url)
    } else if names_markdown(path) {
        path.take(path.len() - ".md"@.len()) + ".html"@ + after_path(url)
    } else {
        url
    }
}

/// The pages of the destinations of `urls` that are not excluded, in
/// order.
pub open spec fn page_paths(urls: Seq<Seq<char>>) -> Seq<Seq<char>>
    decreases urls.len(),
{
    if urls.len() == 0 {
        Seq::empty()
    } else if is_excluded(urls.last()) {
        page_paths(urls.drop_last())
    } else {
        page_paths(urls.drop_last()).push(page_path(urls.last()))
    }
}

/// The destinations of the links of a list, in order.
pub open spec fn destinations(links: Seq<LinkView>) -> Seq<Seq<char>> {
    links.map_values(|l: LinkView| l.url)
}

/// What `Url::cannot_be_a_base` of the `url` crate says of the URL that
/// `Url::parse` reads from `text`; `None` where `Url::parse` refuses
/// `text`.
pub uninterp spec fn url_cannot_be_a_base(text: Seq<char>) -> Option<bool>;

/// The serialization of the URL that `Url::join` of the `url` crate makes
/// of `reference`, on the URL that `Url::parse` reads from `base`; `None`
/// where either refuses its input.
pub uninterp spec fn joined_url(base: Seq<char>, reference: Seq<char>) -> Option<Seq<char>>;

/// `Url::parse` on `text`, then `Url::cannot_be_a_base` on the URL read.
/// The result depends on `text` alone.
#[verifier::external_body]
fn cannot_be_a_base(text: &str) -> (r: Option<bool>)
    ensures
        r == url_cannot_be_a_base(text@),
{
    url::Url::parse(text).ok().map(|url| url.cannot_be_a_base())
}

/// `Url::parse` on `base`, then `Url::join` with `reference` on the URL
/// read; the URL made is handed back as its serialization. The result
/// depends on `base` and `reference` alone.
#[verifier::external_body]
fn join_url(base: &str, reference: &str) -> (r: Option<String>)
    ensures
        text_view(r) == joined_url(base@, reference@),
{
    url::Url::parse(base).ok().and_then(|url| url.join(reference).ok()).map(String::from)
}

/// The URLs that `paths` resolve to against `base`, in order, without the
/// paths that do not resolve.
pub open spec fn resolved(base: Seq<char>, paths: Seq<Seq<char>>) -> Seq<Seq<char>>
    decreases paths.len(),
{
    if paths.len() == 0 {
        Seq::empty()
    } else {
        match joined_url(base, paths.last()) {
            Some(url) => resolved(base, paths.drop_last()).push(url),
            None => resolved(base, paths.drop_last()),
        }
    }
}

/// The paths of `paths` that do not resolve against `base`, in order.
pub open spec fn unresolved(base: Seq<char>, paths: Seq<Seq<char>>) -> Seq<Seq<char>>
    decreases paths.len(),
{
    if paths.len() == 0 {
        Seq::empty()
    } else {
        match joined_url(base, paths.last()) {
            Some(_) => unresolved(base, paths.drop_last()),
            None => unresolved(base, paths.drop_last()).push(paths.last()),
        }
    }
}

/// A file of another name than `intro.md` is not the index page, though
/// its name may hold `intro.md`: a Markdown file whose path does not name
/// the introduction keeps its name, with `.html` for the `.md` that ends
/// it.
pub proof fn lemma_only_the_introduction_is_renamed(url: Seq<char>)
    requires
        path_end(url) == url.len(),
        names_markdown(url),
        !names_introduction(url),
    ensures
        page_path(url) == url.take(url.len() - ".md"@.len()) + ".html"@,
{
    assert(path_of(url) =~= url);
    assert(after_path(url) =~= Seq::<char>::empty());
    assert(page_path(url) =~= url.take(url.len() - ".md"@.len()) + ".html"@);
}

/// The file named `intro.md`, in whatever directory, is served as the
/// `index.html` of that directory.
pub proof fn lemma_introduction_is_the_index(directory: Seq<char>)
    requires
        directory.len() == 0 || directory.last() == '/',
        path_end(directory + "intro.md"@) == (directory + "intro.md"@).len(),
    ensures
        page_path(directory + "intro.md"@) == directory + "index.html"@,
{
    let url = directory + "intro.md"@;
    let n = "intro.md"@.len();
    assert(path_of(url) =~= url);
    assert(after_path(url) =~= Seq::<char>::empty());
    assert(url.subrange(url.len() - n, url.len() as int) =~= "intro.md"@);
    assert(url.take(url.len() - n) =~= directory);
    if directory.len() > 0 {
        assert(url[url.len() - n - 1] == directory.last());
    }
    assert(page_path(url) =~= directory + "index.html"@);
}

/// A text that ends with `.html`, and then goes on with a query or a
/// fragment or not at all, ends with no name that is excluded unless what
/// follows `.html` does.
proof fn lemma_html_is_not_excluded(head: Seq<char>, rest: Seq<char>, name: Seq<char>)
    requires
        rest.len() == 0 || rest[0] == '?' || rest[0] == '#',
        name.len() > 0,
        name.last() == 'd',
        forall|i: int| 0 <= i < name.len() ==> name[i] != '?' && name[i] != '#',
        name.is_suffix_of(head + ".html"@ + rest),
    ensures
        name.is_suffix_of(rest),
        rest.len() > 0,
{
    reveal_strlit(".html");
    let page = head + ".html"@ + rest;
    let start = page.len() - name.len();
    assert(page.subrange(start, page.len() as int) =~= name);
    if rest.len() == 0 {
        assert(page.subrange(start, page.len() as int)[name.len() - 1] == page[page.len() - 1]);
        assert(page[page.len() - 1] == 'l');
    } else {
        let at = page.len() - rest.len();
        assert(page[at] == rest[0]);
        if rest.len() <= name.len() {
            assert(page.subrange(start, page.len() as int)[at - start] == page[at]);
            assert(name[at - start] == rest[0]);
        }
        assert(rest.subrange(rest.len() - name.len(), rest.len() as int) =~= page.subrange(
            start,
            page.len() as int,
        ));
    }
}

/// The page of a destination that is not excluded is no file that is
/// excluded.
pub proof fn lemma_page_is_not_excluded(url: Seq<char>)
    requires
        !is_excluded(url),
    ensures
        !is_excluded(page_path(url)),
{
    reveal_strlit("refs.md");
    reveal_strlit("SUMMARY.md");
    reveal_strlit("index.html");
    reveal_strlit(".html");
    reveal_strlit("intro.md");
    reveal_strlit(".md");
    lemma_index_of_char_found(url, '?', 0);
    lemma_index_of_char_found(url, '#', 0);
    let path = path_of(url);
    let rest = after_path(url);
    let page = page_path(url);
    assert(url =~= path + rest);
    if names_introduction(path) || names_markdown(path) {
        let head = if names_introduction(path) {
            path.take(path.len() - 8) + "index"@
        } else {
            path.take(path.len() - 3)
        };
        reveal_strlit("index");
        assert(page =~= head + ".html"@ + rest);
        if "refs.md"@.is_suffix_of(page) {
            lemma_html_is_not_excluded(head, rest, "refs.md"@);
            assert(url.subrange(url.len() - 7, url.len() as int) =~= rest.subrange(
                rest.len() - 7,
                rest.len() as int,
            ));
        }
        if "SUMMARY.md"@.is_suffix_of(page) {
            lemma_html_is_not_excluded(head, rest, "SUMMARY.md"@);
            assert(url.subrange(url.len() - 10, url.len() as int) =~= rest.subrange(
                rest.len() - 10,
                rest.len() as int,
            ));
        }
    }
}

/// A destination that is excluded adds no page to a sitemap.
pub proof fn lemma_excluded_adds_no_page(urls: Seq<Seq<char>>, url: Seq<char>)
    requires
        is_excluded(url),
    ensures
        page_paths(urls.push(url)) == page_paths(urls),
{
    assert(urls.push(url).drop_last() =~= urls);
}

/// Each page of a sitemap stands for a destination that is not excluded,
/// and is itself no file that is excluded.
pub proof fn lemma_pages_are_not_excluded(urls: Seq<Seq<char>>)
    ensures
        forall|i: int|
            0 <= i < page_paths(urls).len() ==> {
                &&& !is_excluded(#[trigger] page_paths(urls)[i])
                &&& exists|j: int|
                    0 <= j < urls.len() && !is_excluded(urls[j]) && page_paths(urls)[i]
                        == page_path(urls[j])
            },
    decreases urls.len(),
{
    if urls.len() > 0 {
        let before = urls.drop_last();
        lemma_pages_are_not_excluded(before);
        if !is_excluded(urls.last()) {
            lemma_page_is_not_excluded(urls.last());
        }
        assert forall|i: int| 0 <= i < page_paths(urls).len() implies {
            &&& !is_excluded(#[trigger] page_paths(urls)[i])
            &&& exists|j: int|
                0 <= j < urls.len() && !is_excluded(urls[j]) && page_paths(urls)[i] == page_path(
                    urls[j],
                )
        } by {
            if i < page_paths(before).len() {
                assert(page_paths(urls)[i] == page_paths(before)[i]);
                let j = choose|j: int|
                    0 <= j < before.len() && !is_excluded(before[j]) && page_paths(before)[i]
                        == page_path(before[j]);
                assert(urls[j] == before[j]);
            } else {
                assert(page_paths(urls)[i] == page_path(urls[urls.len() - 1]));
            }
        }
    }
}

/// Tells whether a destination is excluded from sitemaps.
pub fn excluded(url: &str) -> (b: bool)
    ensures
        b == is_excluded(url@),
{
    ends_with(url, "refs.md") || ends_with(url, "SUMMARY.md")
}

/// The page that a destination stands for: `index.html` for the file
/// named `intro.md`, the HTML file for any other Markdown file, and the
/// destination itself for anything else.
pub fn page_of(url: &str) -> (page: String)
    ensures
        page@ == page_path(url@),
{
    let chars = chars_of(url);
    let query = find_char(&chars, '?', 0);
    let fragment = find_char(&chars, '#', 0);
    let end = if query < fragment {
        query
    } else {
        fragment
    };
    let intro = chars_of("intro.md");
    let markdown = chars_of(".md");
    let mut page: Vec<char> = Vec::new();
    let ghost path = path_of(url@);
    assert(path == chars@.take(end as int));
    if ends_at(&chars, &intro, end) && (end == intro.len() || chars[end - intro.len() - 1] == '/') {
        push_range(&mut page, &chars, 0, end - intro.len());
        let index = chars_of("index.html");
        push_all(&mut page, &index);
        assert(chars@.subrange(0, end - intro.len()) =~= path.take(path.len() - "intro.md"@.len()));
    } else if ends_at(&chars, &markdown, end) {
        push_range(&mut page, &chars, 0, end - markdown.len());
        let html = chars_of(".html");
        push_all(&mut page, &html);
        assert(chars@.subrange(0, end - markdown.len()) =~= path.take(path.len() - ".md"@.len()));
    } else {
        return url.to_owned();
    }
    push_range(&mut page, &chars, end, chars.len());
    assert(chars@.subrange(end as int, chars.len() as int) =~= after_path(url@));
    string_of(&page)
}

/// The destinations of the links of `links`, in order.
pub fn destinations_of(links: &Vec<Link>) -> (urls: Vec<String>)
    ensures
        keys(urls@) == destinations(link_views(links@)),
{
    let mut urls: Vec<String> = Vec::new();
    let mut i: usize = 0;
    assert(keys(urls@) =~= destinations(link_views(links@)).take(0));
    while i < links.len()
        invariant
            i <= links.len(),
            keys(urls@) == destinations(link_views(links@)).take(i as int),
        decreases links.len() - i,
    {
        let ghost before = keys(urls@);
        let url = links[i].get_url().to_owned();
        urls.push(url);
        assert(keys(urls@) =~= before.push(url@));
        assert(keys(urls@) =~= destinations(link_views(links@)).take(i + 1));
        i += 1;
    }
    assert(destinations(link_views(links@)).take(links.len() as int) =~= destinations(
        link_views(links@),
    ));
    urls
}

/// The pages that the destinations of `urls` stand for, in order, without
/// the destinations that are excluded.
pub fn pages_of(urls: &Vec<String>) -> (pages: Vec<String>)
    ensures
        keys(pages@) == page_paths(keys(urls@)),
{
    let ghost all = keys(urls@);
    let mut pages: Vec<String> = Vec::new();
    let mut i: usize = 0;
    assert(all.take(0) =~= Seq::<Seq<char>>::empty());
    assert(keys(pages@) =~= Seq::<Seq<char>>::empty());
    while i < urls.len()
        invariant
            i <= urls.len(),
            all == keys(urls@),
            keys(pages@) == page_paths(all.take(i as int)),
        decreases urls.len() - i,
    {
        let url = urls[i].as_str();
        let ghost next = all.take(i + 1);
        assert(next.drop_last() =~= all.take(i as int));
        assert(next.last() == url@);
        if !excluded(url) {
            let ghost before = keys(pages@);
            let page = page_of(url);
            pages.push(page);
            assert(keys(pages@) =~= before.push(page@));
        }
        i += 1;
    }
    assert(all.take(urls.len() as int) =~= all);
    pages
}

/// Resolves each path of `pages` against `base`. Returns the URLs made,
/// and the paths of which none could be made, each in order.
pub fn resolve(base: &str, pages: &Vec<String>) -> (r: (Vec<String>, Vec<String>))
    ensures
        keys(r.0@) == resolved(base@, keys(pages@)),
        keys(r.1@) == unresolved(base@, keys(pages@)),
{
    let ghost paths = keys(pages@);
    let mut urls: Vec<String> = Vec::new();
    let mut failed: Vec<String> = Vec::new();
    let mut i: usize = 0;
    assert(paths.take(0) =~= Seq::<Seq<char>>::empty());
    assert(keys(urls@) =~= Seq::<Seq<char>>::empty());
    assert(keys(failed@) =~= Seq::<Seq<char>>::empty());
    while i < pages.len()
        invariant
            i <= pages.len(),
            paths == keys(pages@),
            keys(urls@) == resolved(base@, paths.take(i as int)),
            keys(failed@) == unresolved(base@, paths.take(i as int)),
        decreases pages.len() - i,
    {
        let ghost next = paths.take(i + 1);
        assert(next.drop_last() =~= paths.take(i as int));
        assert(next.last() == pages@[i as int]@);
        let ghost urls_before = keys(urls@);
        let ghost failed_before = keys(failed@);
        match join_url(base, pages[i].as_str()) {
            Some(url) => {
                urls.push(url);
                assert(keys(urls@) =~= urls_before.push(url@));
            },
            None => {
                let page = pages[i].clone();
                failed.push(page);
                assert(keys(failed@) =~= failed_before.push(page@));
            },
        }
        i += 1;
    }
    assert(paths.take(pages.len() as int) =~= paths);
    (urls, failed)
}

/// A sitemap, and what did not get into it.
#[derive(Clone, Debug)]
pub struct Sitemap {
    /// The URLs of the pages, sorted, each once.
    pub urls: Vec<String>,
    /// The pages of which no URL could be made, in the order of the links
    /// that name them.
    pub failed: Vec<String>,
    /// The sitemap document.
    pub xml: String,
}

/// Makes the sitemap of pages whose URLs are `urls`, in any order and
/// with repetitions: the URLs are sorted, each is kept once, and the
/// document is written from them.
pub fn assemble(urls: Vec<String>, failed: Vec<String>) -> (sitemap: Sitemap)
    ensures
        keys(sitemap.urls@) == sorted_once(keys(urls@)),
        strictly_sorted(keys(sitemap.urls@)),
        hold_the_same(keys(sitemap.urls@), keys(urls@)),
        sitemap.failed == failed,
        sitemap.xml@ == document(keys(sitemap.urls@)),
{
    let sorted = sort_by_key(urls);
    proof {
        lemma_sorts_same_keys(urls@, sorted@);
    }
    let mut xml = String::new();
    write_xml(&sorted, &mut xml);
    assert(xml@ =~= document(keys(sorted@)));
    Sitemap { urls: sorted, failed, xml }
}

/// Why no sitemap could be made.
#[derive(Clone, Copy, Debug, PartialEq, Eq, Structural)]
pub enum SitemapError {
    /// The base URL is no URL.
    InvalidBaseUrl,
    /// The base URL cannot be a base: no relative URL resolves against it.
    CannotBeABase,
}

/// What is wrong with a base URL, if anything.
pub open spec fn base_checked(base: Seq<char>) -> Result<(), SitemapError> {
    match url_cannot_be_a_base(base) {
        None => Err(SitemapError::InvalidBaseUrl),
        Some(true) => Err(SitemapError::CannotBeABase),
        Some(false) => Ok(()),
    }
}

/// Tells whether relative URLs can be resolved against `base_url`.
pub fn check_base(base_url: &str) -> (r: Result<(), SitemapError>)
    ensures
        r == base_checked(base_url@),
{
    match cannot_be_a_base(base_url) {
        None => Err(SitemapError::InvalidBaseUrl),
        Some(true) => Err(SitemapError::CannotBeABase),
        Some(false) => Ok(()),
    }
}

/// `sitemap` is the sitemap of the pages that the destinations of `urls`
/// stand for, under `base`: its URLs are those that the pages resolve to,
/// sorted, each once; its document lists them; and the pages that do not
/// resolve are reported.
pub open spec fn is_sitemap_of(sitemap: Sitemap, urls: Seq<Seq<char>>, base: Seq<char>) -> bool {
    let paths = page_paths(urls);
    &&& keys(sitemap.urls@) == sorted_once(resolved(base, paths))
    &&& strictly_sorted(keys(sitemap.urls@))
    &&& hold_the_same(keys(sitemap.urls@), resolved(base, paths))
    &&& keys(sitemap.failed@) == unresolved(base, paths)
    &&& sitemap.xml@ == document(keys(sitemap.urls@))
}

/// Makes the sitemap of the pages that the destinations of `urls` stand
/// for, as URLs under `base_url`; a destination is what a link points to,
/// or the path of a source file. Reference files and the table of
/// contents are left out; the introduction becomes the index page; for
/// each page the Markdown file becomes the HTML file. The URLs are sorted,
/// and each is listed once. A page of which no URL can be made is reported
/// in `failed` and does not stop the others.
pub fn sitemap_of(urls: &Vec<String>, base_url: &str) -> (r: Result<Sitemap, SitemapError>)
    ensures
        match r {
            Ok(sitemap) => base_checked(base_url@) is Ok && is_sitemap_of(
                sitemap,
                keys(urls@),
                base_url@,
            ),
            Err(e) => base_checked(base_url@) == Err::<(), SitemapError>(e),
        },
{
    match check_base(base_url) {
        Err(e) => Err(e),
        Ok(()) => {
            let pages = pages_of(urls);
            let (resolved, failed) = resolve(base_url, &pages);
            Ok(assemble(resolved, failed))
        },
    }
}

/// Makes the sitemap of the pages that `links` name, as URLs under
/// `base_url`: the sitemap of their destinations.
pub fn generate_sitemap(links: Vec<Link>, base_url: &str) -> (r: Result<Sitemap, SitemapError>)
    ensures
        match r {
            Ok(sitemap) => base_checked(base_url@) is Ok && is_sitemap_of(
                sitemap,
                destinations(link_views(links@)),
                base_url@,
            ),
            Err(e) => base_checked(base_url@) == Err::<(), SitemapError>(e),
        },
{
    let urls = destinations_of(&links);
    sitemap_of(&urls, base_url)
}

} // verus!
