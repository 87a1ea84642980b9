use neko_rss::config::RssConfig;
use neko_rss::entry::RawEntry;
use neko_rss::ingest::{order_oldest_first, plan_entry, ConfigError, EntryPlan, Event, FeedError, FeedRun};
use neko_rss::storage::Storage;
use std::time::{SystemTime, UNIX_EPOCH};

fn fresh_storage(tag: &str) -> Storage {
    let nanos = SystemTime::now().duration_since(UNIX_EPOCH).map(|d| d.as_nanos()).unwrap_or(0);
    Storage::new(&format!("/tmp/neko_rss_ingest_{}_{}", tag, nanos)).unwrap()
}

fn config() -> RssConfig {
    RssConfig {
        channel: "100".to_string(),
        tag: "200".to_string(),
        emoji: "📰".to_string(),
        rss: "https://example.com/feed.xml".to_string(),
        category_filter: None,
        link_filter: None,
        upload_image: false,
        setup: None,
    }
}

fn entry(title: &str, link: Option<&str>, id: Option<&str>, categories: Vec<&str>) -> RawEntry {
    RawEntry {
        id: id.map(|s| s.to_string()),
        title: Some(title.to_string()),
        links: match link {
            Some(l) => vec![l.to_string()],
            None => vec![],
        },
        summary: None,
        content: None,
        published: None,
        authors: vec![],
        categories: categories.iter().map(|s| s.to_string()).collect(),
        media: vec![],
    }
}

fn three() -> Vec<RawEntry> {
    vec![
        entry("E3", Some("https://example.com/3"), None, vec![]),
        entry("E2", Some("https://example.com/2"), None, vec![]),
        entry("E1", Some("https://example.com/1"), None, vec![]),
    ]
}

/// Runs one tick; `fails` names the titles whose publishing fails. Returns the titles handed out.
fn run_tick(name: &str, fetched: Vec<RawEntry>, config: &RssConfig, storage: &mut Storage, fails: &[&str]) -> Result<Vec<String>, FeedError> {
    let mut run = FeedRun::begin(name.to_string(), fetched);
    let mut handed_out = Vec::new();
    let mut event = Event::Start;
    loop {
        match run.advance(event, config, storage, 1000)? {
            None => return Ok(handed_out),
            Some(post) => {
                event = if fails.contains(&post.title.as_str()) { Event::PublishFailed } else { Event::Published };
                handed_out.push(post.title);
            }
        }
    }
}

#[test]
fn entries_are_published_oldest_first() {
    let mut s = fresh_storage("order");
    let out = run_tick("feed", three(), &config(), &mut s, &[]).unwrap();
    assert_eq!(out, vec!["E1".to_string(), "E2".to_string(), "E3".to_string()]);
}

#[test]
fn order_is_reversed() {
    let titles: Vec<Option<String>> = order_oldest_first(three()).into_iter().map(|e| e.title).collect();
    assert_eq!(titles, vec![Some("E1".to_string()), Some("E2".to_string()), Some("E3".to_string())]);
    assert!(order_oldest_first(vec![]).is_empty());
}

#[test]
fn second_tick_without_new_entries_is_quiet() {
    let mut s = fresh_storage("idempotent");
    run_tick("feed", three(), &config(), &mut s, &[]).unwrap();
    let before = {
        let mut ids = s.get_processed_ids("feed").unwrap();
        ids.sort();
        ids
    };
    let out = run_tick("feed", three(), &config(), &mut s, &[]).unwrap();
    assert!(out.is_empty());
    let mut after = s.get_processed_ids("feed").unwrap();
    after.sort();
    assert_eq!(before, after);
    assert_eq!(after.len(), 3);
}

#[test]
fn published_entry_is_marked_and_not_republished() {
    let mut s = fresh_storage("once");
    run_tick("feed", three(), &config(), &mut s, &[]).unwrap();
    assert!(s.is_processed("feed", "https://example.com/1").unwrap());
    assert!(s.is_processed("feed", "https://example.com/2").unwrap());
    assert!(s.is_processed("feed", "https://example.com/3").unwrap());
    let mut more = three();
    more.insert(0, entry("E4", Some("https://example.com/4"), None, vec![]));
    let out = run_tick("feed", more, &config(), &mut s, &[]).unwrap();
    assert_eq!(out, vec!["E4".to_string()]);
}

#[test]
fn failed_publish_is_not_marked_and_is_retried() {
    let mut s = fresh_storage("retry");
    let out = run_tick("feed", three(), &config(), &mut s, &["E2"]).unwrap();
    assert_eq!(out, vec!["E1".to_string(), "E2".to_string(), "E3".to_string()]);
    assert!(s.is_processed("feed", "https://example.com/1").unwrap());
    assert!(!s.is_processed("feed", "https://example.com/2").unwrap());
    assert!(s.is_processed("feed", "https://example.com/3").unwrap());
    let out = run_tick("feed", three(), &config(), &mut s, &[]).unwrap();
    assert_eq!(out, vec!["E2".to_string()]);
    assert!(s.is_processed("feed", "https://example.com/2").unwrap());
}

#[test]
fn category_filtered_entry_is_marked_but_not_published() {
    let mut s = fresh_storage("category");
    let mut c = config();
    c.category_filter = Some(vec!["spam".to_string()]);
    let fetched = vec![
        entry("Fine", Some("https://example.com/fine"), None, vec!["news"]),
        entry("Spam", Some("https://example.com/spam"), None, vec!["spam", "news"]),
    ];
    let out = run_tick("feed", fetched, &c, &mut s, &[]).unwrap();
    assert_eq!(out, vec!["Fine".to_string()]);
    assert!(s.is_processed("feed", "https://example.com/spam").unwrap());
    assert!(s.is_processed("feed", "https://example.com/fine").unwrap());
}

#[test]
fn link_filtered_entry_is_marked_but_not_published() {
    let mut s = fresh_storage("link");
    let mut c = config();
    c.link_filter = Some(vec!["^https://example\\.com/".to_string()]);
    let fetched = vec![
        entry("NoLink", None, Some("guid-9"), vec![]),
        entry("Other", Some("https://other.org/a"), None, vec![]),
        entry("Ours", Some("https://example.com/a"), None, vec![]),
    ];
    let out = run_tick("feed", fetched, &c, &mut s, &[]).unwrap();
    assert_eq!(out, vec!["Ours".to_string()]);
    assert!(s.is_processed("feed", "https://other.org/a").unwrap());
    assert!(s.is_processed("feed", "guid-9").unwrap());
    assert!(s.is_processed("feed", "https://example.com/a").unwrap());
}

#[test]
fn entry_without_identity_is_skipped_and_does_not_block() {
    let mut s = fresh_storage("noid");
    let fetched = vec![
        entry("After", Some("https://example.com/after"), None, vec![]),
        entry("Nameless", None, None, vec![]),
        entry("Before", Some("https://example.com/before"), None, vec![]),
    ];
    let out = run_tick("feed", fetched, &config(), &mut s, &[]).unwrap();
    assert_eq!(out, vec!["Before".to_string(), "After".to_string()]);
    assert!(!s.is_processed("feed", "").unwrap());
    let mut ids = s.get_processed_ids("feed").unwrap();
    ids.sort();
    assert_eq!(ids, vec!["https://example.com/after".to_string(), "https://example.com/before".to_string()]);
}

#[test]
fn entry_with_empty_link_and_id_is_skipped() {
    let mut s = fresh_storage("emptyid");
    let fetched = vec![entry("Empty", None, Some(""), vec![])];
    let out = run_tick("feed", fetched, &config(), &mut s, &[]).unwrap();
    assert!(out.is_empty());
    assert!(s.get_processed_ids("feed").unwrap().is_empty());
}

#[test]
fn identity_falls_back_to_the_feed_id() {
    let mut s = fresh_storage("guid");
    let fetched = vec![entry("Guid", None, Some("guid-1"), vec![])];
    let out = run_tick("feed", fetched, &config(), &mut s, &[]).unwrap();
    assert_eq!(out, vec!["Guid".to_string()]);
    assert!(s.is_processed("feed", "guid-1").unwrap());
}

#[test]
fn duplicate_within_one_fetch_is_published_once() {
    let mut s = fresh_storage("dup");
    let fetched = vec![
        entry("Second", Some("https://example.com/same"), None, vec![]),
        entry("First", Some("https://example.com/same"), None, vec![]),
    ];
    let out = run_tick("feed", fetched, &config(), &mut s, &[]).unwrap();
    assert_eq!(out, vec!["First".to_string()]);
}

#[test]
fn feeds_do_not_share_records() {
    let mut s = fresh_storage("feeds");
    run_tick("one", three(), &config(), &mut s, &[]).unwrap();
    let out = run_tick("two", three(), &config(), &mut s, &[]).unwrap();
    assert_eq!(out.len(), 3);
}

#[test]
fn post_carries_destination_title_and_content() {
    let mut s = fresh_storage("post");
    let mut run = FeedRun::begin("feed".to_string(), vec![entry("E1", Some("https://example.com/1"), None, vec![])]);
    let post = run.advance(Event::Start, &config(), &mut s, 1000).unwrap().unwrap();
    assert_eq!(post.channel_id, 100);
    assert_eq!(post.tag_id, 200);
    assert_eq!(post.title, "E1");
    assert_eq!(post.content, "# 📰 | [E1](<https://example.com/1>)\n\n-# 🕐 <t:1000:f>");
    assert!(run.awaiting);
    assert_eq!(run.cursor, 0);
    assert!(run.advance(Event::Published, &config(), &mut s, 1000).unwrap().is_none());
    assert!(!run.awaiting);
    assert_eq!(run.cursor, 1);
    assert!(run.advance(Event::Published, &config(), &mut s, 1000).unwrap().is_none());
}

#[test]
fn untitled_entry_gets_a_default_title() {
    let mut s = fresh_storage("untitled");
    let mut e = entry("x", Some("https://example.com/1"), None, vec![]);
    e.title = None;
    let mut run = FeedRun::begin("feed".to_string(), vec![e]);
    let post = run.advance(Event::Start, &config(), &mut s, 1000).unwrap().unwrap();
    assert_eq!(post.title, "Untitled");
}

#[test]
fn start_event_while_awaiting_counts_as_failure() {
    let mut s = fresh_storage("start");
    let mut run = FeedRun::begin("feed".to_string(), three());
    let first = run.advance(Event::Start, &config(), &mut s, 1000).unwrap().unwrap();
    assert_eq!(first.title, "E1");
    let second = run.advance(Event::Start, &config(), &mut s, 1000).unwrap().unwrap();
    assert_eq!(second.title, "E2");
    assert!(!s.is_processed("feed", "https://example.com/1").unwrap());
}

#[test]
fn invalid_channel_ends_the_run() {
    let mut s = fresh_storage("channel");
    let mut c = config();
    c.channel = "general".to_string();
    c.tag = "also wrong".to_string();
    let r = run_tick("feed", three(), &c, &mut s, &[]);
    assert!(matches!(r, Err(FeedError::Config(ConfigError::Channel))));
    assert!(s.get_processed_ids("feed").unwrap().is_empty());
}

#[test]
fn invalid_tag_ends_the_run() {
    let mut s = fresh_storage("tag");
    let mut c = config();
    c.tag = "-5".to_string();
    let mut run = FeedRun::begin("feed".to_string(), three());
    let r = run.advance(Event::Start, &c, &mut s, 1000);
    assert!(matches!(r, Err(FeedError::Config(ConfigError::Tag))));
    assert!(run.advance(Event::Start, &c, &mut s, 1000).unwrap().is_none());
}

#[test]
fn invalid_configuration_does_not_stop_suppression() {
    let mut s = fresh_storage("misconfigured");
    let mut c = config();
    c.channel = String::new();
    c.category_filter = Some(vec!["spam".to_string()]);
    let fetched = vec![
        entry("Fine", Some("https://example.com/fine"), None, vec![]),
        entry("Spam", Some("https://example.com/spam"), None, vec!["spam"]),
    ];
    let r = run_tick("feed", fetched, &c, &mut s, &[]);
    assert!(matches!(r, Err(FeedError::Config(ConfigError::Channel))));
    assert!(s.is_processed("feed", "https://example.com/spam").unwrap());
    assert!(!s.is_processed("feed", "https://example.com/fine").unwrap());
}

#[test]
fn plan_of_each_kind() {
    let mut s = fresh_storage("plan");
    let c = config();
    let fresh = entry("E", Some("https://example.com/e"), None, vec![]);
    assert!(matches!(plan_entry("feed", &c, &entry("N", None, None, vec![]), &s, 1), Ok(EntryPlan::NoIdentity)));
    assert!(matches!(plan_entry("feed", &c, &fresh, &s, 1), Ok(EntryPlan::Publish(_))));
    let mut filtered = config();
    filtered.category_filter = Some(vec!["spam".to_string()]);
    let spam = entry("S", Some("https://example.com/s"), None, vec!["spam"]);
    match plan_entry("feed", &filtered, &spam, &s, 1) {
        Ok(EntryPlan::Suppress(id)) => assert_eq!(id, "https://example.com/s"),
        other => panic!("{:?}", other),
    }
    let mut broken = config();
    broken.tag = "x".to_string();
    assert!(matches!(plan_entry("feed", &broken, &fresh, &s, 1), Ok(EntryPlan::Misconfigured(ConfigError::Tag))));
    s.mark_processed("feed", "https://example.com/e").unwrap();
    assert!(matches!(plan_entry("feed", &c, &fresh, &s, 1), Ok(EntryPlan::AlreadyProcessed)));
    assert!(matches!(plan_entry("feed", &broken, &fresh, &s, 1), Ok(EntryPlan::AlreadyProcessed)));
}

#[test]
fn empty_fetch_finishes_at_once() {
    let mut s = fresh_storage("empty");
    let mut run = FeedRun::begin("feed".to_string(), vec![]);
    assert!(run.advance(Event::Start, &config(), &mut s, 1000).unwrap().is_none());
    assert_eq!(run.name, "feed");
}
