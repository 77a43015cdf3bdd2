//! Pages: which responses are HTML, and which links an HTML page holds.

use crate::link::absolute;
use crate::link::get_absolute_url;
use crate::link::Link;
use crate::link::LinkView;
use crate::text::text_view;
use vstd::hash_set::StringHashSet;
use vstd::prelude::*;

verus! {

/// Whether `part` stands in `text` at position `at`.
pub open spec fn occurs_at(text: Seq<char>, part: Seq<char>, at: int) -> bool {
    &&& 0 <= at
    &&& at + part.len() <= text.len()
    &&& text.subrange(at, at + part.len()) == part
}

/// Whether `part` stands somewhere in `text`.
pub open spec fn has_infix(text: Seq<char>, part: Seq<char>) -> bool {
    exists|at: int| occurs_at(text, part, at)
}

/// Whether a content type announces an HTML document: the header is present
/// and holds `text/html`.
pub open spec fn announces_html(content_type: Option<Seq<char>>) -> bool {
    match content_type {
        Some(text) => has_infix(text, "text/html"@),
        None => false,
    }
}

/// The characters of a text.
fn chars_of(text: &str) -> (chars: Vec<char>)
    ensures
        chars@ == text@,
{
    let mut chars: Vec<char> = Vec::new();
    for c in it: text.chars()
        invariant
            it.seq() == text@,
            chars@ == it.seq().take(it.index()),
    {
        chars.push(c);
    }
    chars
}

/// Tells whether `part` stands in `text` at position `at`.
fn matches_at(text: &Vec<char>, part: &Vec<char>, at: usize) -> (found: bool)
    requires
        at + part.len() <= text.len(),
    ensures
        found == occurs_at(text@, part@, at as int),
{
    let mut k: usize = 0;
    while k < part.len()
        invariant
            k <= part.len(),
            at + part.len() <= text.len(),
            forall|j: int| 0 <= j < k ==> text@[at + j] == part@[j],
        decreases part.len() - k,
    {
        if text[at + k] != part[k] {
            assert(text@.subrange(at as int, at + part.len())[k as int] != part@[k as int]);
            return false;
        }
        k += 1;
    }
    assert(text@.subrange(at as int, at + part.len()) =~= part@);
    true
}

/// Tells whether `part` stands somewhere in `text`.
fn contains(text: &Vec<char>, part: &Vec<char>) -> (found: bool)
    ensures
        found == has_infix(text@, part@),
{
    if part.len() > text.len() {
        return false;
    }
    let last: usize = text.len() - part.len();
    let mut at: usize = 0;
    loop
        invariant
            at <= last,
            last == text.len() - part.len(),
            forall|j: int| 0 <= j < at ==> !occurs_at(text@, part@, j),
        decreases last - at,
    {
        if matches_at(text, part, at) {
            return true;
        }
        if at == last {
            return false;
        }
        at += 1;
    }
}

/// Tells whether a response is an HTML document by its content type header,
/// given as text where the response has one.
pub fn is_html(content_type: Option<&str>) -> (html: bool)
    ensures
        html == announces_html(
            match content_type {
                Some(text) => Some(text@),
                None => None,
            },
        ),
{
    match content_type {
        Some(text) => contains(&chars_of(text), &chars_of("text/html")),
        None => false,
    }
}

/// What `scraper` selects from a document: for each element that the selector
/// matches, in the order `Html::select` yields them, the value of the named
/// attribute where the element has it. `None` where the selector is no valid
/// selector.
pub uninterp spec fn selected_attrs(
    document: Seq<char>,
    selector: Seq<char>,
    attr: Seq<char>,
) -> Option<Seq<Option<Seq<char>>>>;

/// The mathematical value of a selection.
pub open spec fn selection_view(r: Option<Vec<Option<String>>>) -> Option<Seq<Option<Seq<char>>>> {
    match r {
        Some(values) => Some(values@.map_values(|t: Option<String>| text_view(t))),
        None => None,
    }
}

/// Calls `scraper::Selector::parse`, `scraper::Html::parse_document`,
/// `Html::select` and `Element::attr`. The contract names the result and
/// claims only that it is a function of the three texts.
#[verifier::external_body]
fn select_attrs(document: &str, selector: &str, attr: &str) -> (r: Option<Vec<Option<String>>>)
    ensures
        selection_view(r) == selected_attrs(document@, selector@, attr@),
{
    let selector = scraper::Selector::parse(selector).ok()?;
    let html = scraper::Html::parse_document(document);
    Some(html.select(&selector).map(|e| e.value().attr(attr).map(String::from)).collect())
}

/// The texts of some links, in order.
pub open spec fn hrefs(links: Seq<LinkView>) -> Seq<Seq<char>> {
    links.map_values(|link: LinkView| link.href)
}

/// The distinct absolute links among some hyperlink targets of a page at
/// `base`, each at the place of its first occurrence. Elements without a
/// target, and targets that are neither absolute nor resolvable, count for
/// nothing.
pub open spec fn links_among(targets: Seq<Option<Seq<char>>>, base: Seq<char>) -> Seq<LinkView>
    decreases targets.len(),
{
    if targets.len() == 0 {
        Seq::empty()
    } else {
        let before = links_among(targets.drop_last(), base);
        match targets.last() {
            Some(target) => match absolute(target, base) {
                Some(link) => if hrefs(before).contains(link.href) {
                    before
                } else {
                    before.push(link)
                },
                None => before,
            },
            None => before,
        }
    }
}

/// The distinct absolute links that the anchors of a document at `base` hold.
pub open spec fn page_links(document: Seq<char>, base: Seq<char>) -> Seq<LinkView> {
    match selected_attrs(document, "a"@, "href"@) {
        Some(targets) => links_among(targets, base),
        None => Seq::empty(),
    }
}

/// The mathematical value of a list of links.
pub open spec fn links_view(links: Seq<Link>) -> Seq<LinkView> {
    links.map_values(|link: Link| link@)
}

/// No two links among those of a page have the same text.
pub proof fn lemma_links_among_distinct(targets: Seq<Option<Seq<char>>>, base: Seq<char>)
    ensures
        hrefs(links_among(targets, base)).no_duplicates(),
    decreases targets.len(),
{
    if targets.len() > 0 {
        lemma_links_among_distinct(targets.drop_last(), base);
        let before = links_among(targets.drop_last(), base);
        if let Some(target) = targets.last() {
            if let Some(link) = absolute(target, base) {
                if !hrefs(before).contains(link.href) {
                    assert(hrefs(before.push(link)) =~= hrefs(before).push(link.href));
                }
            }
        }
    }
}

/// Extracts the links of an HTML document: the targets of its anchors, made
/// absolute against the address of the page, each link once.
pub fn parse_urls(document: &str, base_url: &str) -> (links: Vec<Link>)
    ensures
        links_view(links@) == page_links(document@, base_url@),
        hrefs(links_view(links@)).no_duplicates(),
{
    let mut links: Vec<Link> = Vec::new();
    let selection = select_attrs(document, "a", "href");
    proof {
        lemma_links_among_distinct(Seq::empty(), base_url@);
        assert(links_view(links@) =~= Seq::<LinkView>::empty());
    }
    if let Some(targets) = selection {
        let ghost all = targets@.map_values(|t: Option<String>| text_view(t));
        let mut seen = StringHashSet::new();
        for i in 0..targets.len()
            invariant
                all == targets@.map_values(|t: Option<String>| text_view(t)),
                links_view(links@) == links_among(all.take(i as int), base_url@),
                seen@ == hrefs(links_view(links@)).to_set(),
        {
            proof {
                assert(all.take(i + 1).drop_last() =~= all.take(i as int));
                assert(all.take(i + 1).last() == text_view(targets@[i as int]));
            }
            if let Some(target) = &targets[i] {
                if let Some(link) = get_absolute_url(target.as_str(), base_url) {
                    if !seen.contains(link.href.as_str()) {
                        proof {
                            let before = links_view(links@);
                            assert(links_view(links@.push(link)) =~= before.push(link@));
                            assert(hrefs(before.push(link@)) =~= hrefs(before).push(link@.href));
                            hrefs(before).lemma_push_to_set_commute(link@.href);
                        }
                        seen.insert(link.href.clone());
                        links.push(link);
                    }
                }
            }
        }
        proof {
            assert(all.take(targets.len() as int) =~= all);
            lemma_links_among_distinct(all, base_url@);
        }
    }
    links
}

} // verus!
