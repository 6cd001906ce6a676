//! Tests for the robots policy reader.

use knee_scraper::robots::{disallow_value, disallowed_paths};

#[test]
fn disallow_lines_yield_their_paths() {
    assert_eq!(disallow_value("Disallow: /admin"), Some("/admin".to_string()));
    assert_eq!(disallow_value("Allow: /public"), None);
    assert_eq!(disallow_value(""), None);
}

#[test]
fn disallow_without_separator_falls_back_to_root() {
    assert_eq!(disallow_value("Disallow:"), Some("/".to_string()));
    assert_eq!(disallow_value("Disallow:/tight"), Some("/".to_string()));
}

#[test]
fn only_the_second_piece_of_a_line_is_reported() {
    assert_eq!(disallow_value("Disallow: /a: b"), Some("/a".to_string()));
}

#[test]
fn robots_bodies_report_paths_in_order() {
    let lines: Vec<String> = vec![
        "User-agent: *".to_string(),
        "Disallow: /admin".to_string(),
        "Allow: /public".to_string(),
        "Disallow: /private".to_string(),
        "Disallow:".to_string(),
    ];
    assert_eq!(
        disallowed_paths(&lines),
        vec!["/admin".to_string(), "/private".to_string(), "/".to_string()]
    );
}
