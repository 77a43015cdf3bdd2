use krwlr::link::get_absolute_url;
use krwlr::link::Link;
use krwlr::page::is_html;
use krwlr::page::parse_urls;

fn hrefs(links: &[Link]) -> Vec<&str> {
    links.iter().map(|link| link.href.as_str()).collect()
}

#[test]
fn relative_target_resolves_against_the_page() {
    let link = get_absolute_url("../x.html", "https://example.com/dir/page.html").unwrap();
    assert_eq!(link.href, "https://example.com/x.html");
    assert_eq!(link.host.as_deref(), Some("example.com"));
}

#[test]
fn sibling_and_rooted_targets_resolve() {
    let base = "https://example.com/dir/page.html";
    assert_eq!(get_absolute_url("y.html", base).unwrap().href, "https://example.com/dir/y.html");
    assert_eq!(get_absolute_url("/z", base).unwrap().href, "https://example.com/z");
    assert_eq!(get_absolute_url("?q=1", base).unwrap().href, "https://example.com/dir/page.html?q=1");
    assert_eq!(get_absolute_url("#top", base).unwrap().href, "https://example.com/dir/page.html#top");
    assert_eq!(get_absolute_url("//other.com/p", base).unwrap().href, "https://other.com/p");
}

#[test]
fn absolute_target_is_taken_as_it_is() {
    let link = get_absolute_url("http://other.com/a?b=c", "https://example.com/dir/page.html").unwrap();
    assert_eq!(link.href, "http://other.com/a?b=c");
    assert_eq!(link.host.as_deref(), Some("other.com"));
}

#[test]
fn absolute_target_is_normalized_by_the_parser() {
    let link = get_absolute_url("HTTPS://Example.COM", "https://unused.example/").unwrap();
    assert_eq!(link.href, "https://example.com/");
    assert_eq!(link.host.as_deref(), Some("example.com"));
}

#[test]
fn absolute_target_needs_no_valid_base() {
    let link = get_absolute_url("https://example.com/a", "not a url").unwrap();
    assert_eq!(link.href, "https://example.com/a");
}

#[test]
fn target_without_host_is_kept_without_one() {
    let link = get_absolute_url("mailto:someone@example.com", "https://example.com/").unwrap();
    assert_eq!(link.href, "mailto:someone@example.com");
    assert_eq!(link.host, None);
}

#[test]
fn target_at_an_address_keeps_the_address_as_host() {
    let link = get_absolute_url("/x", "http://10.0.0.1:8080/dir/").unwrap();
    assert_eq!(link.href, "http://10.0.0.1:8080/x");
    assert_eq!(link.host.as_deref(), Some("10.0.0.1"));
}

#[test]
fn malformed_target_is_dropped() {
    assert!(get_absolute_url("https://exa mple.com/", "https://example.com/").is_none());
    assert!(get_absolute_url("http://[::1", "https://example.com/").is_none());
    assert!(get_absolute_url("https://example.com:99999/", "https://example.com/").is_none());
}

#[test]
fn relative_target_without_usable_base_is_dropped() {
    assert!(get_absolute_url("x.html", "not a url").is_none());
    assert!(get_absolute_url("x.html", "mailto:someone@example.com").is_none());
    assert!(get_absolute_url("x.html", "").is_none());
}

#[test]
fn page_without_anchors_has_no_links() {
    assert!(parse_urls("<html><body><p>nothing here</p></body></html>", "https://example.com/").is_empty());
    assert!(parse_urls("", "https://example.com/").is_empty());
    assert!(parse_urls("plain text, no markup", "https://example.com/").is_empty());
}

#[test]
fn anchors_give_absolute_links_in_document_order() {
    let html = r#"<html><body>
        <a href="/a">a</a>
        <a href="b.html">b</a>
        <a href="https://other.com/c">c</a>
        <a href="../d">d</a>
    </body></html>"#;
    let links = parse_urls(html, "https://example.com/dir/page.html");
    assert_eq!(
        hrefs(&links),
        vec![
            "https://example.com/a",
            "https://example.com/dir/b.html",
            "https://other.com/c",
            "https://example.com/d",
        ]
    );
    assert_eq!(links[0].host.as_deref(), Some("example.com"));
    assert_eq!(links[2].host.as_deref(), Some("other.com"));
}

#[test]
fn each_link_of_a_page_is_listed_once() {
    let html = r#"<a href="/a">1</a><a href="https://example.com/a">2</a><a href="/b">3</a><a href="/a">4</a>"#;
    let links = parse_urls(html, "https://example.com/");
    assert_eq!(hrefs(&links), vec!["https://example.com/a", "https://example.com/b"]);
}

#[test]
fn anchors_without_usable_target_are_skipped() {
    let html = r#"<a>no target</a><a href="http://[::1">broken</a><a href="/ok">ok</a><a name="x">named</a>"#;
    let links = parse_urls(html, "https://example.com/");
    assert_eq!(hrefs(&links), vec!["https://example.com/ok"]);
}

#[test]
fn only_anchors_count_as_links() {
    let html = r#"<link href="/style.css"><img src="/i.png"><area href="/area"><a href="/real">x</a>"#;
    let links = parse_urls(html, "https://example.com/");
    assert_eq!(hrefs(&links), vec!["https://example.com/real"]);
}

#[test]
fn relative_links_on_a_page_without_address_are_dropped() {
    let html = r#"<a href="/a">a</a><a href="https://example.com/b">b</a>"#;
    let links = parse_urls(html, "not a url");
    assert_eq!(hrefs(&links), vec!["https://example.com/b"]);
}

#[test]
fn html_content_types_are_recognized() {
    assert!(is_html(Some("text/html")));
    assert!(is_html(Some("text/html; charset=utf-8")));
    assert!(is_html(Some("application/xhtml+xml, text/html")));
    assert!(is_html(Some("xtext/htmlx")));
}

#[test]
fn other_content_types_are_not_html() {
    assert!(!is_html(Some("application/json")));
    assert!(!is_html(Some("text/plain")));
    assert!(!is_html(Some("text/htm")));
    assert!(!is_html(Some("ext/html")));
    assert!(!is_html(Some("text /html")));
    assert!(!is_html(Some("")));
}

#[test]
fn content_type_is_matched_case_sensitively() {
    assert!(!is_html(Some("TEXT/HTML")));
    assert!(!is_html(Some("Text/Html; charset=utf-8")));
}

#[test]
fn response_without_content_type_is_not_html() {
    assert!(!is_html(None));
}

#[test]
fn content_type_with_other_scripts_is_searched_by_character() {
    assert!(is_html(Some("日本語 text/html ünïcödé")));
    assert!(!is_html(Some("日本語 text/htm ünïcödé")));
}
