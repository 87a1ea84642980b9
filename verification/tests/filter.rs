use neko_rss::config::RssConfig;
use neko_rss::entry::RawEntry;
use neko_rss::filter::{filter_verdict, should_include_by_link, should_suppress, suppressed_by_category};

fn config(category_filter: Option<Vec<&str>>, link_filter: Option<Vec<&str>>) -> RssConfig {
    RssConfig {
        channel: "1".to_string(),
        tag: "2".to_string(),
        emoji: "📰".to_string(),
        rss: "https://example.com/feed.xml".to_string(),
        category_filter: category_filter.map(|v| v.iter().map(|s| s.to_string()).collect()),
        link_filter: link_filter.map(|v| v.iter().map(|s| s.to_string()).collect()),
        upload_image: false,
        setup: None,
    }
}

fn entry(link: Option<&str>, categories: Vec<&str>) -> RawEntry {
    RawEntry {
        id: Some("guid".to_string()),
        title: None,
        links: match link {
            Some(l) => vec![l.to_string()],
            None => vec![],
        },
        summary: None,
        content: None,
        published: None,
        authors: vec![],
        categories: categories.iter().map(|s| s.to_string()).collect(),
        media: vec![],
    }
}

fn strings(v: Vec<&str>) -> Vec<String> {
    v.iter().map(|s| s.to_string()).collect()
}

#[test]
fn link_matching_a_filter_is_included() {
    let filters = strings(vec!["^https://example\\.com/"]);
    let a = "https://example.com/a".to_string();
    let b = "https://other.org/a".to_string();
    assert!(should_include_by_link(Some(&a), Some(&filters)));
    assert!(!should_include_by_link(Some(&b), Some(&filters)));
}

#[test]
fn no_link_with_filters_is_excluded() {
    let filters = strings(vec!["^https://example\\.com/"]);
    assert!(!should_include_by_link(None, Some(&filters)));
}

#[test]
fn no_filters_include_everything() {
    let a = "https://example.com/a".to_string();
    assert!(should_include_by_link(Some(&a), None));
    assert!(should_include_by_link(None, None));
}

#[test]
fn empty_filter_list_excludes_everything() {
    let a = "https://example.com/a".to_string();
    let filters: Vec<String> = vec![];
    assert!(!should_include_by_link(Some(&a), Some(&filters)));
    assert!(!should_include_by_link(None, Some(&filters)));
}

#[test]
fn invalid_pattern_never_matches() {
    let a = "https://example.com/(".to_string();
    let broken = strings(vec!["("]);
    assert!(!should_include_by_link(Some(&a), Some(&broken)));
    let mixed = strings(vec!["(", "[", "example"]);
    assert!(should_include_by_link(Some(&a), Some(&mixed)));
}

#[test]
fn pattern_matches_anywhere_in_the_link() {
    let a = "https://example.com/posts/42".to_string();
    assert!(should_include_by_link(Some(&a), Some(&strings(vec!["posts/\\d+$"]))));
    assert!(!should_include_by_link(Some(&a), Some(&strings(vec!["^posts"]))));
    assert!(should_include_by_link(Some(&a), Some(&strings(vec!["nothing", "example"]))));
}

#[test]
fn verdict_of_each_outcome() {
    assert!(filter_verdict(Some(true)));
    assert!(!filter_verdict(Some(false)));
    assert!(!filter_verdict(None));
}

#[test]
fn category_overlap_suppresses() {
    let filters = Some(strings(vec!["spam"]));
    assert!(suppressed_by_category(&strings(vec!["spam", "news"]), &filters));
    assert!(suppressed_by_category(&strings(vec!["news", "spam"]), &filters));
    assert!(!suppressed_by_category(&strings(vec!["news"]), &filters));
    assert!(!suppressed_by_category(&strings(vec![]), &filters));
    assert!(!suppressed_by_category(&strings(vec!["Spam", "spammy"]), &filters));
    assert!(!suppressed_by_category(&strings(vec!["spam"]), &None));
    assert!(!suppressed_by_category(&strings(vec!["spam"]), &Some(vec![])));
}

#[test]
fn entry_is_suppressed_by_either_rule() {
    let both = config(Some(vec!["spam"]), Some(vec!["^https://example\\.com/"]));
    assert!(should_suppress(&entry(Some("https://example.com/a"), vec!["spam", "news"]), &both));
    assert!(should_suppress(&entry(Some("https://other.org/a"), vec!["news"]), &both));
    assert!(should_suppress(&entry(None, vec!["news"]), &both));
    assert!(!should_suppress(&entry(Some("https://example.com/a"), vec!["news"]), &both));
    let none = config(None, None);
    assert!(!should_suppress(&entry(None, vec!["spam"]), &none));
}
