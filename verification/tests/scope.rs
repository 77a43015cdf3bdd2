use krwlr::link::get_domain;
use krwlr::link::is_in_scope;
use krwlr::link::is_same_domain;
use krwlr::link::parse_seed;
use krwlr::link::Link;
use krwlr::link::SeedError;

#[test]
fn same_host_is_in_scope() {
    assert!(is_in_scope("https://example.com/a", "example.com"));
}

#[test]
fn other_host_is_out_of_scope() {
    assert!(!is_in_scope("https://other.com/a", "example.com"));
}

#[test]
fn unparseable_text_is_out_of_scope() {
    assert!(!is_in_scope("not a url", "example.com"));
}

#[test]
fn subdomain_is_out_of_scope() {
    assert!(!is_in_scope("https://www.example.com/a", "example.com"));
    assert!(!is_in_scope("https://example.com/a", "www.example.com"));
}

#[test]
fn scheme_and_port_do_not_matter_for_scope() {
    assert!(is_in_scope("http://example.com:8080/a?b=c#d", "example.com"));
    assert!(is_in_scope("ftp://example.com/", "example.com"));
}

#[test]
fn host_is_compared_as_the_parser_normalizes_it() {
    assert!(is_in_scope("https://EXAMPLE.com/a", "example.com"));
    assert!(!is_in_scope("https://example.com/a", "EXAMPLE.com"));
}

#[test]
fn url_without_a_host_is_out_of_scope() {
    assert!(!is_in_scope("mailto:someone@example.com", "example.com"));
    assert!(!is_in_scope("data:text/plain,example.com", "example.com"));
    assert!(!is_in_scope("file:///etc/hosts", ""));
    assert!(!is_in_scope("/relative/path", "example.com"));
    assert!(!is_in_scope("", "example.com"));
}

#[test]
fn address_host_is_in_scope_of_itself() {
    assert!(is_in_scope("https://127.0.0.1/", "127.0.0.1"));
    assert!(is_in_scope("http://127.0.0.1:8080/a?b#c", "127.0.0.1"));
    assert!(!is_in_scope("http://127.0.0.2/", "127.0.0.1"));
    assert!(!is_in_scope("http://localhost/", "127.0.0.1"));
    assert!(is_in_scope("http://[::1]/x", "[::1]"));
    assert!(!is_in_scope("http://[::1]/x", "::1"));
}

#[test]
fn address_host_is_compared_as_the_parser_writes_it() {
    assert!(is_in_scope("http://0x7f.1/", "127.0.0.1"));
    assert!(!is_in_scope("http://127.0.0.1/", "0x7f.1"));
    assert!(is_in_scope("http://[0:0:0:0:0:0:0:1]/", "[::1]"));
}

#[test]
fn link_is_on_its_own_domain_only() {
    let link = Link {
        href: String::from("https://example.com/a"),
        host: Some(String::from("example.com")),
    };
    assert!(is_same_domain(&link, "example.com"));
    assert!(!is_same_domain(&link, "example.org"));
    assert!(!is_same_domain(&link, "example.co"));
    assert!(!is_same_domain(&link, ""));
}

#[test]
fn link_without_host_is_on_no_domain() {
    let link = Link { href: String::from("mailto:a@example.com"), host: None };
    assert!(!is_same_domain(&link, "example.com"));
    assert!(!is_same_domain(&link, ""));
}

#[test]
fn domain_of_a_seed_is_its_host() {
    assert_eq!(get_domain("https://example.com/start"), Ok(String::from("example.com")));
    assert_eq!(get_domain("http://Sub.Example.COM:81/x"), Ok(String::from("sub.example.com")));
}

#[test]
fn seed_that_is_no_url_is_invalid() {
    assert_eq!(get_domain("not a url"), Err(SeedError::InvalidUrl));
    assert_eq!(get_domain(""), Err(SeedError::InvalidUrl));
    assert_eq!(get_domain("https://"), Err(SeedError::InvalidUrl));
    assert_eq!(parse_seed("/only/a/path").err(), Some(SeedError::InvalidUrl));
}

#[test]
fn seed_without_host_is_refused() {
    assert_eq!(get_domain("mailto:someone@example.com"), Err(SeedError::MissingHost));
    assert_eq!(get_domain("file:///etc/hosts"), Err(SeedError::MissingHost));
    assert_eq!(get_domain("unix:/run/foo.socket"), Err(SeedError::MissingHost));
    assert_eq!(parse_seed("data:text/plain,hello").err(), Some(SeedError::MissingHost));
}

#[test]
fn domain_of_a_seed_at_an_address_is_the_address() {
    assert_eq!(get_domain("http://127.0.0.1/"), Ok(String::from("127.0.0.1")));
    assert_eq!(get_domain("https://192.168.0.1:8443/x"), Ok(String::from("192.168.0.1")));
    assert_eq!(get_domain("https://[::1]/"), Ok(String::from("[::1]")));
    let link = parse_seed("http://127.0.0.1").unwrap();
    assert_eq!(link.href, "http://127.0.0.1/");
    assert_eq!(link.host.as_deref(), Some("127.0.0.1"));
}

#[test]
fn seed_is_read_as_the_parser_normalizes_it() {
    let link = parse_seed("HTTPS://Example.COM").unwrap();
    assert_eq!(link.href, "https://example.com/");
    assert_eq!(link.host.as_deref(), Some("example.com"));
    let link = parse_seed("https://example.com/a/../b?x=1#y").unwrap();
    assert_eq!(link.href, "https://example.com/b?x=1#y");
    assert_eq!(link.host.as_deref(), Some("example.com"));
}
