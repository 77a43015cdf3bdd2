use krwlr::frontier::Frontier;

fn strings(items: &[&str]) -> Vec<String> {
    items.iter().map(|s| s.to_string()).collect()
}

#[test]
fn new_frontier_holds_the_seed() {
    let frontier = Frontier::new("https://example.com/");
    assert_eq!(frontier.len(), 1);
    assert!(!frontier.is_empty());
    assert!(frontier.contains("https://example.com/"));
    assert!(!frontier.contains("https://example.com/a"));
    assert_eq!(frontier.peek().map(|s| s.as_str()), Some("https://example.com/"));
}

#[test]
fn pop_hands_out_the_seed_then_nothing() {
    let mut frontier = Frontier::new("https://example.com/");
    assert_eq!(frontier.pop_next(), Some(String::from("https://example.com/")));
    assert!(frontier.is_empty());
    assert_eq!(frontier.len(), 0);
    assert_eq!(frontier.pop_next(), None);
    assert_eq!(frontier.pop_next(), None);
    assert_eq!(frontier.peek(), None);
}

#[test]
fn popped_link_stays_seen() {
    let mut frontier = Frontier::new("https://example.com/");
    frontier.pop_next();
    assert!(frontier.contains("https://example.com/"));
    let added = frontier.offer(&strings(&["https://example.com/"]));
    assert!(added.is_empty());
    assert!(frontier.is_empty());
}

#[test]
fn offer_adds_only_new_links() {
    let mut frontier = Frontier::new("s");
    let added = frontier.offer(&strings(&["a", "s", "b"]));
    assert_eq!(added, strings(&["a", "b"]));
    assert_eq!(frontier.len(), 3);
    let added = frontier.offer(&strings(&["b", "c", "a"]));
    assert_eq!(added, strings(&["c"]));
    assert_eq!(frontier.len(), 4);
}

#[test]
fn offer_adds_a_link_repeated_in_the_batch_once() {
    let mut frontier = Frontier::new("s");
    let added = frontier.offer(&strings(&["a", "a", "b", "a", "b"]));
    assert_eq!(added, strings(&["a", "b"]));
    assert_eq!(frontier.len(), 3);
}

#[test]
fn offer_of_nothing_changes_nothing() {
    let mut frontier = Frontier::new("s");
    let added = frontier.offer(&Vec::new());
    assert!(added.is_empty());
    assert_eq!(frontier.len(), 1);
}

#[test]
fn links_leave_in_the_order_they_came() {
    let mut frontier = Frontier::new("s");
    frontier.offer(&strings(&["a", "b"]));
    assert_eq!(frontier.pop_next().as_deref(), Some("s"));
    frontier.offer(&strings(&["c"]));
    assert_eq!(frontier.pop_next().as_deref(), Some("a"));
    assert_eq!(frontier.pop_next().as_deref(), Some("b"));
    assert_eq!(frontier.pop_next().as_deref(), Some("c"));
    assert_eq!(frontier.pop_next(), None);
}

#[test]
fn no_link_is_handed_out_twice() {
    let mut frontier = Frontier::new("s");
    let mut handed_out: Vec<String> = Vec::new();
    let batches = [
        strings(&["a", "b", "s"]),
        strings(&["b", "c", "c"]),
        strings(&["a", "s", "d"]),
        strings(&["d", "c", "b", "a"]),
    ];
    for batch in batches.iter() {
        frontier.offer(batch);
        if let Some(url) = frontier.pop_next() {
            assert!(!handed_out.contains(&url));
            handed_out.push(url);
        }
    }
    while let Some(url) = frontier.pop_next() {
        assert!(!handed_out.contains(&url));
        handed_out.push(url);
    }
    assert_eq!(handed_out, strings(&["s", "a", "b", "c", "d"]));
}

#[test]
fn links_are_told_apart_byte_for_byte() {
    let mut frontier = Frontier::new("https://example.com/a");
    let added = frontier.offer(&strings(&[
        "https://example.com/a/",
        "https://example.com/A",
        "https://example.com/a?",
        "https://example.com/a",
    ]));
    assert_eq!(added.len(), 3);
    assert_eq!(frontier.len(), 4);
}
