//! Tests that drive the two traversal engines over synthetic pages, with no
//! network: the driver loop lives in the test and hands each engine the
//! fetch outcomes it asks about.

use knee_scraper::config::ScraperConfig;
use knee_scraper::fetch::FetchOutcome;
use knee_scraper::traversal::{BfsTraversal, DfsTraversal};
use knee_scraper::urlset::UrlSet;

fn page_for(url: &str) -> &'static str {
    match url {
        "https://a.test/" => r#"phrase here <a href="https://b.test/">b</a>"#,
        "https://b.test/" => r#"phrase here <a href="https://c.test/">c</a>"#,
        "https://c.test/" => r#"phrase here <a href="https://a.test/">a</a>"#,
        _ => "",
    }
}

#[test]
fn recursive_mode_terminates_on_a_three_node_cycle() {
    let mut t = DfsTraversal::new("https://a.test/".to_string());
    let mut fetched: Vec<String> = Vec::new();
    let mut steps = 0;
    while let Some(url) = t.next_url() {
        steps += 1;
        assert!(steps <= 10, "traversal of a 3-node cycle must terminate");
        fetched.push(url.clone());
        t.expand(page_for(&url), &url);
    }
    assert_eq!(fetched.len(), 3);
    for u in ["https://a.test/", "https://b.test/", "https://c.test/"] {
        assert_eq!(
            fetched.iter().filter(|f| f.as_str() == u).count(),
            1,
            "each URL is visited exactly once"
        );
        assert_eq!(
            t.visited.urls.iter().filter(|f| f.as_str() == u).count(),
            1,
            "each URL stands in the visited set exactly once"
        );
    }
}

#[test]
fn visited_set_never_takes_a_url_twice() {
    let mut s = UrlSet::new();
    s.insert("https://a.test/".to_string());
    s.insert("https://a.test/".to_string());
    s.insert("https://b.test/".to_string());
    assert_eq!(s.len(), 2);
    assert!(s.contains(&"https://a.test/".to_string()));
    assert!(s.contains(&"https://b.test/".to_string()));
}

#[test]
fn gated_mode_with_zero_depth_never_enqueues() {
    let config = ScraperConfig::new(true, 0, None);
    let mut t = BfsTraversal::new("https://a.test/".to_string(), config);
    let url = t.next_url().expect("the seed is unvisited");
    let outcome = FetchOutcome::Success { status: 200, body: page_for(&url).to_string() };
    t.process_page(&url, &outcome, "phrase here");
    assert_eq!(t.depth, 0, "no expansion wave is spent");
    assert_eq!(t.frontier.len(), 0, "no link is enqueued even though the page matches");
    assert!(t.next_url().is_none());
}

#[test]
fn gated_mode_without_a_match_enqueues_nothing() {
    let config = ScraperConfig::default();
    let mut t = BfsTraversal::new("https://a.test/".to_string(), config);
    let url = t.next_url().expect("the seed is unvisited");
    let body = r#"nothing relevant <a href="https://b.test/">a valid link</a>"#;
    let outcome = FetchOutcome::Success { status: 200, body: body.to_string() };
    t.process_page(&url, &outcome, "phrase here");
    assert_eq!(t.frontier.len(), 0, "a non-matching page contributes no frontier entries");
    assert_eq!(t.depth, 0);
}

#[test]
fn gated_mode_follows_matching_pages() {
    let config = ScraperConfig::default();
    let mut t = BfsTraversal::new("https://a.test/".to_string(), config);
    let mut fetched: Vec<String> = Vec::new();
    let mut steps = 0;
    while let Some(url) = t.next_url() {
        steps += 1;
        assert!(steps <= 10);
        fetched.push(url.clone());
        let outcome = FetchOutcome::Success { status: 200, body: page_for(&url).to_string() };
        t.process_page(&url, &outcome, "phrase here");
    }
    assert_eq!(fetched.len(), 3, "the whole cycle is visited, each node once");
    assert_eq!(t.depth, 3, "one wave per expanded page");
}

#[test]
fn failed_fetches_leave_queued_work_untouched() {
    let config = ScraperConfig::default();
    let mut t = BfsTraversal::new("https://a.test/".to_string(), config);

    let url = t.next_url().expect("the seed is unvisited");
    let body = r#"phrase here <a href="https://b.test/">b</a> <a href="https://c.test/">c</a>"#;
    let outcome = FetchOutcome::Success { status: 200, body: body.to_string() };
    t.process_page(&url, &outcome, "phrase here");
    assert_eq!(t.frontier.len(), 2, "both links are enqueued");

    // The next page fails on transport: its links stay unexplored, but the
    // sibling that is already queued is still served afterwards.
    let url_b = t.next_url().expect("the first enqueued link");
    assert_eq!(url_b, "https://b.test/");
    t.process_page(&url_b, &FetchOutcome::NetworkError, "phrase here");
    assert_eq!(t.frontier.len(), 1, "the sibling stays queued");

    // A non-success status behaves the same way.
    let url_c = t.next_url().expect("the sibling link");
    assert_eq!(url_c, "https://c.test/");
    let not_found = FetchOutcome::Success { status: 404, body: page_for(&url_c).to_string() };
    t.process_page(&url_c, &not_found, "phrase here");
    assert_eq!(t.frontier.len(), 0);
    assert!(t.next_url().is_none(), "the run ends by exhaustion, not by the failures");

    // So does a body that cannot be decoded.
    let mut t2 = BfsTraversal::new("https://a.test/".to_string(), ScraperConfig::default());
    let seed = t2.next_url().expect("the seed is unvisited");
    t2.process_page(&seed, &FetchOutcome::BodyReadError, "phrase here");
    assert_eq!(t2.frontier.len(), 0);
    assert_eq!(t2.depth, 0);
}

#[test]
fn gated_mode_respects_follow_links_off() {
    let config = ScraperConfig::new(false, 3, None);
    let mut t = BfsTraversal::new("https://a.test/".to_string(), config);
    let url = t.next_url().expect("the seed is unvisited");
    let outcome = FetchOutcome::Success { status: 200, body: page_for(&url).to_string() };
    t.process_page(&url, &outcome, "phrase here");
    assert_eq!(t.frontier.len(), 0, "links are not followed when following is off");
    assert_eq!(t.depth, 0);
}

#[test]
fn already_visited_links_are_not_enqueued() {
    let mut t = DfsTraversal::new("https://a.test/".to_string());
    let url = t.next_url().expect("the seed is unvisited");
    // The page links to itself and to one new page: the self-link is
    // already visited and never becomes pending work.
    let body = r#"<a href="https://a.test/">again</a> <a href="https://b.test/">b</a>"#;
    t.expand(body, &url);
    assert_eq!(t.pending.len(), 1);
    let next = t.next_url().expect("one genuinely new link");
    assert_eq!(next, "https://b.test/");
    t.expand("", &next);
    assert!(t.next_url().is_none());
}

#[test]
fn lazy_dedup_skips_entries_visited_meanwhile() {
    let mut t = DfsTraversal::new("https://a.test/".to_string());
    let a = t.next_url().expect("the seed is unvisited");
    t.expand(r#"<a href="https://b.test/">b</a> <a href="https://c.test/">c</a>"#, &a);
    // The work stack now holds b and c; c is taken first.
    let c = t.next_url().expect("the newest pending entry");
    assert_eq!(c, "https://c.test/");
    // c links to b, which is pending but not yet visited: b is queued twice.
    t.expand(r#"<a href="https://b.test/">b</a>"#, &c);
    assert_eq!(t.pending.len(), 2);
    let b = t.next_url().expect("the first of the two b entries");
    assert_eq!(b, "https://b.test/");
    t.expand("", &b);
    // The second b entry is skipped at dequeue time: the lazy dedup.
    assert!(t.next_url().is_none());
    assert_eq!(t.visited.urls.len(), 3);
}
