//! Links: what the crawl reads of a URL, which targets are absolute, and which
//! of them lie on the host that confines the run.

use crate::text::text_view;
use vstd::prelude::*;

verus! {

/// An absolute URL as the crawl reads it: its normalized text and, where it
/// has a host, the host as the parser writes it, be it a domain name or an
/// address.
#[derive(Debug)]
pub struct Link {
    pub href: String,
    pub host: Option<String>,
}

/// The mathematical value of a [`Link`].
pub struct LinkView {
    pub href: Seq<char>,
    pub host: Option<Seq<char>>,
}

impl View for Link {
    type V = LinkView;

    open spec fn view(&self) -> LinkView {
        LinkView {
            href: self.href@,
            host: text_view(self.host),
        }
    }
}

/// Why a text is no absolute URL.
#[derive(Clone, Copy, Debug, PartialEq, Eq, Structural)]
pub enum UrlError {
    /// The text is a relative reference: it needs a base to resolve against.
    RelativeWithoutBase,
    /// The text is malformed in any other way.
    Invalid,
}

/// Why a seed cannot start a run.
#[derive(Clone, Copy, Debug, PartialEq, Eq, Structural)]
pub enum SeedError {
    /// The seed is no absolute URL.
    InvalidUrl,
    /// The seed is a URL without a host.
    MissingHost,
}

/// What `url::Url::parse` makes of a text: the parsed URL's serialization and
/// host, or the kind of its failure.
pub uninterp spec fn url_parse(input: Seq<char>) -> Result<LinkView, UrlError>;

/// What `url::Url::join` makes of a reference when the URL parsed from `base`
/// is the one it is resolved against.
pub uninterp spec fn url_join(base: Seq<char>, reference: Seq<char>) -> Result<LinkView, UrlError>;

/// The mathematical value of a link that may have failed to come about.
pub open spec fn link_result<E>(r: Result<Link, E>) -> Result<LinkView, E> {
    match r {
        Ok(link) => Ok(link@),
        Err(e) => Err(e),
    }
}

/// Calls `url::Url::parse`. The contract names the result and claims only that
/// it is a function of the text: on success the link holds the URL's
/// serialization and what `Url::host_str` returns; of the errors only
/// `ParseError::RelativeUrlWithoutBase` is told apart.
#[verifier::external_body]
fn parse_url(input: &str) -> (r: Result<Link, UrlError>)
    ensures
        link_result(r) == url_parse(input@),
{
    match url::Url::parse(input) {
        Ok(u) => Ok(Link { host: u.host_str().map(String::from), href: String::from(u) }),
        Err(url::ParseError::RelativeUrlWithoutBase) => Err(UrlError::RelativeWithoutBase),
        Err(_) => Err(UrlError::Invalid),
    }
}

/// Calls `url::Url::join` on the URL that `url::Url::parse` makes of `base`.
/// The contract names the result and claims that it is a function of the two
/// texts, and that a base that does not parse gives that parse's error: the
/// join is made only on a base that parsed.
#[verifier::external_body]
fn to_absolute_url(url: &str, base: &str) -> (r: Result<Link, UrlError>)
    ensures
        link_result(r) == url_join(base@, url@),
        url_parse(base@) is Err ==> link_result(r) == url_parse(base@),
{
    match url::Url::parse(base).and_then(|b| b.join(url)) {
        Ok(u) => Ok(Link { host: u.host_str().map(String::from), href: String::from(u) }),
        Err(url::ParseError::RelativeUrlWithoutBase) => Err(UrlError::RelativeWithoutBase),
        Err(_) => Err(UrlError::Invalid),
    }
}

/// The absolute link that a hyperlink target stands for on a page at `base`:
/// the target itself where it is an absolute URL, its resolution against the
/// page where it is a relative reference, and nothing where it is neither.
pub open spec fn absolute(target: Seq<char>, base: Seq<char>) -> Option<LinkView> {
    match url_parse(target) {
        Ok(link) => Some(link),
        Err(UrlError::RelativeWithoutBase) => match url_join(base, target) {
            Ok(link) => Some(link),
            Err(_) => None,
        },
        Err(UrlError::Invalid) => None,
    }
}

/// The mathematical value of an optional link.
pub open spec fn link_view(link: Option<Link>) -> Option<LinkView> {
    match link {
        Some(l) => Some(l@),
        None => None,
    }
}

/// Makes a hyperlink target absolute, resolving a relative one against the
/// page it was found on. Targets that are neither are dropped, and so is
/// every target that is not absolute where the address of the page is none.
pub fn get_absolute_url(url: &str, base_url: &str) -> (link: Option<Link>)
    ensures
        link_view(link) == absolute(url@, base_url@),
        url_parse(url@) is Err && url_parse(base_url@) is Err ==> link is None,
{
    match parse_url(url) {
        Ok(link) => Some(link),
        Err(UrlError::RelativeWithoutBase) => match to_absolute_url(url, base_url) {
            Ok(link) => Some(link),
            Err(_) => None,
        },
        Err(UrlError::Invalid) => None,
    }
}

/// Whether a link lies on the given domain: it has a host, and the host
/// equals `domain` character for character.
pub open spec fn in_scope(link: LinkView, domain: Seq<char>) -> bool {
    link.host == Some(domain)
}

/// The domain filter on a parsed link.
pub fn is_same_domain(link: &Link, domain: &str) -> (same: bool)
    ensures
        same == in_scope(link@, domain@),
{
    match &link.host {
        Some(host) => host.as_str().eq(domain),
        None => false,
    }
}

/// Whether a text is in scope of a run on `seed_domain`: it is an absolute URL
/// whose host is exactly `seed_domain`.
pub open spec fn text_in_scope(url: Seq<char>, seed_domain: Seq<char>) -> bool {
    match url_parse(url) {
        Ok(link) => in_scope(link, seed_domain),
        Err(_) => false,
    }
}

/// The domain filter on a text. Texts that are no absolute URL, and URLs
/// without a host, are out of scope.
pub fn is_in_scope(url: &str, seed_domain: &str) -> (inside: bool)
    ensures
        inside == text_in_scope(url@, seed_domain@),
{
    match parse_url(url) {
        Ok(link) => is_same_domain(&link, seed_domain),
        Err(_) => false,
    }
}

/// The link that a seed stands for, or why the seed cannot start a run: a
/// seed is an absolute URL that has a host.
pub open spec fn seed_link(seed: Seq<char>) -> Result<LinkView, SeedError> {
    match url_parse(seed) {
        Ok(link) => if link.host is Some {
            Ok(link)
        } else {
            Err(SeedError::MissingHost)
        },
        Err(_) => Err(SeedError::InvalidUrl),
    }
}

/// The domain that a seed confines its run to, which is the host of the
/// seed, or why the seed cannot start a run.
pub open spec fn seed_domain(seed: Seq<char>) -> Result<Seq<char>, SeedError> {
    match seed_link(seed) {
        Ok(link) => Ok(link.host->0),
        Err(e) => Err(e),
    }
}

/// The mathematical value of a domain lookup.
pub open spec fn domain_view(r: Result<String, SeedError>) -> Result<Seq<char>, SeedError> {
    match r {
        Ok(d) => Ok(d@),
        Err(e) => Err(e),
    }
}

/// Reads a seed: gives the seed as the parser normalizes it, with its host,
/// or says why the seed cannot start a run.
pub fn parse_seed(seed: &str) -> (r: Result<Link, SeedError>)
    ensures
        link_result(r) == seed_link(seed@),
{
    match parse_url(seed) {
        Ok(link) => if link.host.is_some() {
            Ok(link)
        } else {
            Err(SeedError::MissingHost)
        },
        Err(_) => Err(SeedError::InvalidUrl),
    }
}

/// Looks up the domain that a seed confines its run to, which is the host of
/// the seed, or says why the seed cannot start a run.
pub fn get_domain(url_str: &str) -> (r: Result<String, SeedError>)
    ensures
        domain_view(r) == seed_domain(url_str@),
{
    match parse_seed(url_str) {
        Ok(link) => match link.host {
            Some(host) => Ok(host),
            None => Err(SeedError::MissingHost),
        },
        Err(e) => Err(e),
    }
}

} // verus!
