//! Tests for link extraction, normalization, domain reading, script
//! scanning, probe building and configuration.

use knee_scraper::config::ScraperConfig;
use knee_scraper::fetch::{pick_delay, random_user_agent, status_is_success};
use knee_scraper::emails::find_emails;
use knee_scraper::links::{
    extract_domain, extract_links, normalize_link, try_extract_domain, try_normalize_link,
};
use knee_scraper::matcher::{has_error_signature, should_scrape_content};
use knee_scraper::probes::open_directory_probes;
use knee_scraper::scripts::{flagged_scripts, script_sources, scripts_containing};

#[test]
fn test_random_user_agent() {
    let user_agent = random_user_agent();
    assert!(user_agent.contains("Mozilla"), "User-Agent should contain 'Mozilla'");
}

#[test]
fn test_extract_links() {
    let html = r#"<a href="/about">About</a> <a href="https://example.com">Home</a>"#;
    let base_url = "https://test.com";
    let links = extract_links(html, base_url);

    assert!(links.contains(&"https://test.com/about".to_string()));
    assert!(links.contains(&"https://example.com".to_string()));
}

#[test]
fn test_normalize_link() {
    let link = "/about";
    let base_url = "https://example.com";
    let normalized = normalize_link(link, base_url);

    assert_eq!(normalized, "https://example.com/about");
}

#[test]
fn relative_link_resolves_to_exactly_one_url() {
    let links = extract_links("<a href='/about'>x</a>", "https://example.com");
    assert_eq!(links.len(), 1);
    assert!(links.contains(&"https://example.com/about".to_string()));
}

#[test]
fn absolute_link_passes_through_unmodified() {
    let links = extract_links("<a href='https://other.com'>x</a>", "https://example.com");
    assert_eq!(links.len(), 1);
    assert!(links.contains(&"https://other.com".to_string()));
}

#[test]
fn absolute_link_ignores_base() {
    assert_eq!(
        normalize_link("https://other.com", "https://example.com"),
        "https://other.com"
    );
    assert_eq!(normalize_link("http://other.com/x", "not a base"), "http://other.com/x");
}

#[test]
fn bad_base_returns_link_unchanged() {
    assert_eq!(normalize_link("/about", "not a base"), "/about");
}

#[test]
fn unresolvable_links_are_dropped_silently() {
    // The base parses, but cannot absorb a relative reference: such an
    // href is dropped while the rest of the page is still extracted.
    let html = r#"<a href="/rel">bad</a> <a href="https://ok.test/">good</a>"#;
    let links = extract_links(html, "mailto:user@example.com");
    assert_eq!(links.len(), 1);
    assert!(links.contains(&"https://ok.test/".to_string()));
}

#[test]
fn try_normalize_reports_the_dropped_case() {
    assert_eq!(try_normalize_link("/rel", "mailto:user@example.com"), None);
    assert_eq!(
        try_normalize_link("/about", "https://example.com"),
        Some("https://example.com/about".to_string())
    );
    assert_eq!(
        try_normalize_link("https://other.com", "whatever"),
        Some("https://other.com".to_string())
    );
    assert_eq!(try_normalize_link("/about", "not a base"), Some("/about".to_string()));
}

#[test]
fn repeated_links_are_deduplicated() {
    let html = r#"<a href="/a">x</a><a href="/a">y</a><a href="/b">z</a>"#;
    let links = extract_links(html, "https://example.com");
    assert_eq!(links.len(), 2);
    assert!(links.contains(&"https://example.com/a".to_string()));
    assert!(links.contains(&"https://example.com/b".to_string()));
}

#[test]
fn markup_without_links_yields_nothing() {
    let links = extract_links("<p>no links here</p>", "https://example.com");
    assert_eq!(links.len(), 0);
}

#[test]
fn domain_of_a_url() {
    assert_eq!(extract_domain("https://example.com/path"), "example.com");
}

#[test]
fn domain_of_an_unparsable_url_is_none() {
    assert!(try_extract_domain("not a url").is_none());
    assert_eq!(
        try_extract_domain("https://example.com/path"),
        Some("example.com".to_string())
    );
}

#[test]
fn phrase_containment_is_case_sensitive() {
    assert!(should_scrape_content("The Target Phrase is here", "Target Phrase"));
    assert!(!should_scrape_content("the target phrase is here", "Target Phrase"));
    assert!(!should_scrape_content("nothing of note", "Target Phrase"));
}

#[test]
fn empty_phrase_is_always_contained() {
    assert!(should_scrape_content("anything", ""));
    assert!(should_scrape_content("", ""));
    assert!(!should_scrape_content("", "x"));
}

#[test]
fn emails_are_found_in_markup() {
    let emails = find_emails("<p>Contact us at info@example.com</p>");
    assert_eq!(emails, vec!["info@example.com".to_string()]);
    assert!(find_emails("<p>no addresses here</p>").is_empty());
}

#[test]
fn error_signatures_are_spotted() {
    assert!(has_error_signature("<body>Unhandled Exception at line 3</body>"));
    assert!(has_error_signature("<pre>Stack trace: ...</pre>"));
    assert!(!has_error_signature("<body>all fine</body>"));
}

#[test]
fn scripts_with_keywords_are_flagged() {
    let html = "<script>var apiKey = 'k';</script><script>var x = 1;</script>";
    let flagged = flagged_scripts(html);
    assert_eq!(flagged.len(), 1);
    assert!(flagged[0].contains("apiKey"));

    let with_kw = scripts_containing(html, "var x");
    assert_eq!(with_kw.len(), 1);
    assert_eq!(with_kw[0], "var x = 1;");
}

#[test]
fn external_script_sources_are_normalized() {
    let html = r#"<script src="/static/app.js"></script><script>inline()</script>"#;
    let srcs = script_sources(html, "https://example.com");
    assert_eq!(srcs, vec!["https://example.com/static/app.js".to_string()]);
}

#[test]
fn probe_urls_follow_the_fixed_list() {
    let probes = open_directory_probes("https://example.com");
    assert_eq!(
        probes,
        vec![
            "https://example.com/backup".to_string(),
            "https://example.com/config".to_string(),
            "https://example.com/logs".to_string(),
            "https://example.com/uploads".to_string(),
        ]
    );
}

#[test]
fn status_codes_in_the_2xx_range_count_as_success() {
    assert!(status_is_success(200));
    assert!(status_is_success(204));
    assert!(status_is_success(299));
    assert!(!status_is_success(199));
    assert!(!status_is_success(300));
    assert!(!status_is_success(404));
    assert!(!status_is_success(500));
}

#[test]
fn delay_stays_inside_the_range() {
    for _ in 0..20 {
        let d = pick_delay(2, 5);
        assert!((2..=5).contains(&d));
    }
    assert_eq!(pick_delay(4, 4), 4);
}

#[test]
fn config_defaults_and_setters() {
    let mut c = ScraperConfig::default();
    assert!(c.follow_links());
    assert_eq!(c.max_depth(), 3);
    assert!(c.user_agent().is_none());

    c.set_follow_links(false);
    c.set_max_depth(7);
    c.set_user_agent(Some("agent".to_string()));
    assert!(!c.follow_links());
    assert_eq!(c.max_depth(), 7);
    assert_eq!(c.user_agent(), Some(&"agent".to_string()));

    let c2 = ScraperConfig::new(true, 0, None);
    assert!(c2.follow_links());
    assert_eq!(c2.max_depth(), 0);
}
