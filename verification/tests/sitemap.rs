use mdbook_utils::link::model::{Link, LinkBuilder, LinkKind};
use mdbook_utils::parser::extract_links::ExtractError;
use mdbook_utils::sitemap::xml::write_xml;
use mdbook_utils::sitemap::{
    assemble, check_base, destinations_of, excluded, page_of, pages_of, resolve, sitemap_of,
    SitemapError,
};
use mdbook_utils::{generate_sitemap, GenerateSitemapError};
use quick_xml::events::BytesText;
use quick_xml::writer::Writer;

fn link_to(url: &str) -> Link {
    LinkBuilder::from_type_url_title(LinkKind::Inline, url, "", "").build()
}

fn strings(items: &[&str]) -> Vec<String> {
    items.iter().map(|s| s.to_string()).collect()
}

const BASE: &str = "https://example.com/book/";

const PROLOGUE: &str = "\u{feff}<?xml version=\"1.0\" encoding=\"UTF-8\"?>\n<urlset xmlns=\"http://www.sitemaps.org/schemas/sitemap/0.9\">";

#[test]
fn reference_files_and_the_table_of_contents_are_excluded() {
    assert!(excluded("refs.md"));
    assert!(excluded("chapter/crate-refs.md"));
    assert!(excluded("SUMMARY.md"));
    assert!(excluded("./SUMMARY.md"));
    assert!(!excluded("summary.md"));
    assert!(!excluded("refs.md.bak"));
    assert!(!excluded("intro.md"));
    assert!(!excluded(""));
    assert!(!excluded("md"));
}

#[test]
fn the_introduction_is_the_index_page() {
    assert_eq!(page_of("intro.md"), "index.html");
    assert_eq!(page_of("guide/intro.md"), "guide/index.html");
    assert_eq!(page_of("./intro.md"), "./index.html");
    assert_eq!(page_of("/intro.md"), "/index.html");
    assert_eq!(page_of("intro.md#start"), "index.html#start");
    assert_eq!(page_of("a/intro.md?x=intro.md"), "a/index.html?x=intro.md");
}

#[test]
fn only_the_file_named_intro_is_the_index_page() {
    assert_eq!(page_of("my-intro.md"), "my-intro.html");
    assert_eq!(page_of("guide/my-intro.md"), "guide/my-intro.html");
    assert_eq!(page_of("xintro.md"), "xintro.html");
    assert_eq!(page_of("intro.md/page.md"), "intro.md/page.html");
    assert_eq!(page_of("intro.mdx"), "intro.mdx");
    assert_eq!(page_of("intro.md.bak"), "intro.md.bak");
    assert_eq!(page_of("Intro.md"), "Intro.html");
    assert_eq!(page_of("page.md#intro.md"), "page.html#intro.md");
    assert_eq!(page_of("intro.html"), "intro.html");
}

#[test]
fn markdown_files_are_served_as_html() {
    assert_eq!(page_of("chapter/page.md"), "chapter/page.html");
    assert_eq!(page_of("page.md#part"), "page.html#part");
    assert_eq!(page_of("page.md?a=b#part"), "page.html?a=b#part");
    assert_eq!(page_of("plain.txt"), "plain.txt");
    assert_eq!(page_of(""), "");
    assert_eq!(page_of(".md"), ".html");
}

#[test]
fn only_the_extension_of_the_path_is_rewritten() {
    assert_eq!(page_of("a.md/b.md"), "a.md/b.html");
    assert_eq!(page_of("a.mdx/b.md"), "a.mdx/b.html");
    assert_eq!(page_of("a.md.txt"), "a.md.txt");
    assert_eq!(page_of("a.mdb"), "a.mdb");
    assert_eq!(page_of("page.txt#b.md"), "page.txt#b.md");
    assert_eq!(page_of("page?b.md"), "page?b.md");
    assert_eq!(page_of("md"), "md");
}

#[test]
fn pages_of_links_leave_out_the_excluded() {
    let links = vec![
        link_to("intro.md"),
        link_to("refs.md"),
        link_to("a/b.md"),
        link_to("SUMMARY.md"),
        link_to("a/b.md"),
    ];
    let urls = destinations_of(&links);
    assert_eq!(urls, strings(&["intro.md", "refs.md", "a/b.md", "SUMMARY.md", "a/b.md"]));
    assert_eq!(pages_of(&urls), strings(&["index.html", "a/b.html", "a/b.html"]));
}

#[test]
fn sitemap_of_source_file_paths() {
    let paths = strings(&["src/intro.md", "src/SUMMARY.md", "src/ch/a.md", "src/ch/a-refs.md"]);
    let sitemap = sitemap_of(&paths, "https://example.com/").expect("a sitemap");
    assert_eq!(
        sitemap.urls,
        strings(&["https://example.com/src/ch/a.html", "https://example.com/src/index.html"])
    );
    assert!(sitemap.failed.is_empty());
}

#[test]
fn base_urls_are_checked() {
    assert_eq!(check_base(BASE), Ok(()));
    assert_eq!(check_base("not a url"), Err(SitemapError::InvalidBaseUrl));
    assert_eq!(check_base(""), Err(SitemapError::InvalidBaseUrl));
    assert_eq!(check_base("mailto:someone@example.com"), Err(SitemapError::CannotBeABase));
    assert_eq!(check_base("data:text/plain,Stuff"), Err(SitemapError::CannotBeABase));
}

#[test]
fn pages_resolve_against_the_base() {
    let (urls, failed) = resolve(BASE, &strings(&["index.html", "a/b.html", "/top.html"]));
    assert_eq!(
        urls,
        strings(&[
            "https://example.com/book/index.html",
            "https://example.com/book/a/b.html",
            "https://example.com/top.html",
        ])
    );
    assert!(failed.is_empty());
}

#[test]
fn pages_that_do_not_resolve_are_reported() {
    let (urls, failed) =
        resolve(BASE, &strings(&["a.html", "https://exa mple.com/x.html", "b.html", "http://[::1"]));
    assert_eq!(
        urls,
        strings(&["https://example.com/book/a.html", "https://example.com/book/b.html"])
    );
    assert_eq!(failed, strings(&["https://exa mple.com/x.html", "http://[::1"]));
}

#[test]
fn nothing_resolves_against_what_is_no_url() {
    let (urls, failed) = resolve("nonsense", &strings(&["a.html"]));
    assert!(urls.is_empty());
    assert_eq!(failed, strings(&["a.html"]));
}

#[test]
fn assembled_urls_are_sorted_and_listed_once() {
    let sitemap = assemble(
        strings(&["https://e.io/b", "https://e.io/a", "https://e.io/b", "https://e.io/B", "https://e.io/a"]),
        strings(&["bad"]),
    );
    assert_eq!(sitemap.urls, strings(&["https://e.io/B", "https://e.io/a", "https://e.io/b"]));
    assert_eq!(sitemap.failed, strings(&["bad"]));
    assert_eq!(
        sitemap.xml,
        format!(
            "{}\n  <url>\n    <loc>https://e.io/B</loc>\n  </url>\n  <url>\n    <loc>https://e.io/a</loc>\n  </url>\n  <url>\n    <loc>https://e.io/b</loc>\n  </url>\n</urlset>",
            PROLOGUE
        )
    );
}

#[test]
fn document_of_no_page() {
    let mut out = String::new();
    write_xml(&Vec::new(), &mut out);
    assert_eq!(out, format!("{}\n</urlset>", PROLOGUE));
    assert_eq!(&out.as_bytes()[..3], &[0xEF, 0xBB, 0xBF]);
}

#[test]
fn document_escapes_what_xml_reserves() {
    let mut out = String::from("x");
    write_xml(&strings(&["https://e.io/?a=1&b=<2>'\"\r\u{e9}"]), &mut out);
    assert_eq!(
        out,
        format!(
            "x{}\n  <url>\n    <loc>https://e.io/?a=1&amp;b=&lt;2&gt;&apos;&quot;&#13;\u{e9}</loc>\n  </url>\n</urlset>",
            PROLOGUE
        )
    );
}

fn written_by_quick_xml(urls: &[String]) -> String {
    let mut writer = Writer::new_with_indent(Vec::new(), b' ', 2);
    writer.write_bom().expect("a byte-order mark");
    writer.get_mut().extend_from_slice(b"<?xml version=\"1.0\" encoding=\"UTF-8\"?>\n");
    writer
        .create_element("urlset")
        .with_attribute(("xmlns", "http://www.sitemaps.org/schemas/sitemap/0.9"))
        .write_inner_content(|writer| {
            for url in urls.iter() {
                writer.create_element("url").write_inner_content(|w| {
                    w.create_element("loc").write_text_content(BytesText::new(url.as_str()))?;
                    Ok(())
                })?;
            }
            Ok(())
        })
        .expect("a url set");
    String::from_utf8(writer.into_inner()).expect("text in UTF-8")
}

#[test]
fn document_is_what_an_indenting_xml_writer_writes() {
    for urls in [
        strings(&[]),
        strings(&["https://e.io/a.html"]),
        strings(&["https://e.io/a.html", "https://e.io/?q=<&>'\"", "https://e.io/\u{4e2d}\u{6587}"]),
    ] {
        let mut out = String::new();
        write_xml(&urls, &mut out);
        assert_eq!(out, written_by_quick_xml(&urls));
    }
}

const SUMMARY: &str = "# Summary\n\n[Introduction](intro.md)\n\n- [Chapter](ch/page.md)\n  - [Again](ch/page.md)\n- [Refs](refs.md)\n- [Contents](SUMMARY.md)\n- [Appendix](appendix.md)\n";

#[test]
fn sitemap_of_a_table_of_contents() {
    let sitemap = generate_sitemap(SUMMARY, BASE).expect("a sitemap");
    assert_eq!(
        sitemap.urls,
        strings(&[
            "https://example.com/book/appendix.html",
            "https://example.com/book/ch/page.html",
            "https://example.com/book/index.html",
        ])
    );
    assert!(sitemap.failed.is_empty());
    assert_eq!(
        sitemap.xml,
        format!(
            "{}\n  <url>\n    <loc>https://example.com/book/appendix.html</loc>\n  </url>\n  <url>\n    <loc>https://example.com/book/ch/page.html</loc>\n  </url>\n  <url>\n    <loc>https://example.com/book/index.html</loc>\n  </url>\n</urlset>",
            PROLOGUE
        )
    );
    assert!(!sitemap.xml.contains("refs"));
    assert!(!sitemap.xml.contains("SUMMARY"));
    assert!(!sitemap.xml.contains("intro"));
}

#[test]
fn a_name_that_holds_the_introduction_is_not_renamed() {
    let links = vec![link_to("my-intro.md")];
    let sitemap =
        mdbook_utils::sitemap::generate_sitemap(links, "https://e.com/").expect("a sitemap");
    assert_eq!(sitemap.urls, strings(&["https://e.com/my-intro.html"]));
    assert_eq!(
        sitemap.xml,
        format!("{}\n  <url>\n    <loc>https://e.com/my-intro.html</loc>\n  </url>\n</urlset>", PROLOGUE)
    );
    let links = vec![link_to("my-intro.md"), link_to("intro.md"), link_to("a.mdx/b.md")];
    let sitemap =
        mdbook_utils::sitemap::generate_sitemap(links, "https://e.com/").expect("a sitemap");
    assert_eq!(
        sitemap.urls,
        strings(&[
            "https://e.com/a.mdx/b.html",
            "https://e.com/index.html",
            "https://e.com/my-intro.html",
        ])
    );
}

#[test]
fn sitemap_needs_a_base_url() {
    assert_eq!(
        generate_sitemap(SUMMARY, "::").err(),
        Some(GenerateSitemapError::Base(SitemapError::InvalidBaseUrl))
    );
    assert_eq!(
        generate_sitemap(SUMMARY, "mailto:a@b.c").err(),
        Some(GenerateSitemapError::Base(SitemapError::CannotBeABase))
    );
}

#[test]
fn sitemap_of_links_reports_what_fails() {
    let links = vec![link_to("b.md"), link_to("https://exa mple.com/x.md"), link_to("a.md")];
    let sitemap = mdbook_utils::sitemap::generate_sitemap(links, BASE).expect("a sitemap");
    assert_eq!(
        sitemap.urls,
        strings(&["https://example.com/book/a.html", "https://example.com/book/b.html"])
    );
    assert_eq!(sitemap.failed, strings(&["https://exa mple.com/x.html"]));
}

#[test]
fn sitemap_of_links_needs_a_base_url() {
    assert_eq!(
        mdbook_utils::sitemap::generate_sitemap(Vec::new(), "x").err(),
        Some(SitemapError::InvalidBaseUrl)
    );
    assert_eq!(
        mdbook_utils::sitemap::generate_sitemap(Vec::new(), "data:,x").err(),
        Some(SitemapError::CannotBeABase)
    );
}

#[test]
fn sitemap_errors_name_what_went_wrong() {
    let unbalanced = GenerateSitemapError::Links(ExtractError::Unbalanced { open: 1 });
    assert_ne!(unbalanced, GenerateSitemapError::Base(SitemapError::InvalidBaseUrl));
}
