use neko_rss::storage::{flush_outcome, Storage, StorageError};
use std::time::{SystemTime, UNIX_EPOCH};

fn fresh_path(tag: &str) -> String {
    let nanos = SystemTime::now().duration_since(UNIX_EPOCH).map(|d| d.as_nanos()).unwrap_or(0);
    format!("/tmp/neko_rss_ledger_{}_{}", tag, nanos)
}

fn sorted(mut ids: Vec<String>) -> Vec<String> {
    ids.sort();
    ids
}

#[test]
fn unmarked_entry_is_not_processed() {
    let s = Storage::new(&fresh_path("unmarked")).unwrap();
    assert!(!s.is_processed("feed", "id").unwrap());
}

#[test]
fn marked_entry_is_processed() {
    let mut s = Storage::new(&fresh_path("marked")).unwrap();
    s.mark_processed("feed", "https://example.com/a").unwrap();
    assert!(s.is_processed("feed", "https://example.com/a").unwrap());
    assert!(!s.is_processed("feed", "https://example.com/b").unwrap());
    assert!(!s.is_processed("other", "https://example.com/a").unwrap());
}

#[test]
fn marking_twice_changes_nothing() {
    let mut s = Storage::new(&fresh_path("twice")).unwrap();
    s.mark_processed("feed", "id").unwrap();
    s.mark_processed("feed", "id").unwrap();
    assert!(s.is_processed("feed", "id").unwrap());
    assert_eq!(s.get_processed_ids("feed").unwrap(), vec!["id".to_string()]);
}

#[test]
fn removed_entry_is_not_processed() {
    let mut s = Storage::new(&fresh_path("removed")).unwrap();
    s.mark_processed("feed", "one").unwrap();
    s.mark_processed("feed", "two").unwrap();
    s.remove_processed("feed", "one").unwrap();
    assert!(!s.is_processed("feed", "one").unwrap());
    assert!(s.is_processed("feed", "two").unwrap());
    s.remove_processed("feed", "never").unwrap();
    assert_eq!(s.get_processed_ids("feed").unwrap(), vec!["two".to_string()]);
}

#[test]
fn migration_marks_every_listed_entry() {
    let mut s = Storage::new(&fresh_path("bulk")).unwrap();
    s.mark_processed("feedB", "kept").unwrap();
    let data = vec![
        ("feedA".to_string(), vec!["id1".to_string(), "id2".to_string()]),
        ("feedB".to_string(), vec![]),
        ("feedC".to_string(), vec!["id1".to_string()]),
    ];
    s.mark_processed_bulk(data).unwrap();
    assert!(s.is_processed("feedA", "id1").unwrap());
    assert!(s.is_processed("feedA", "id2").unwrap());
    assert!(s.is_processed("feedC", "id1").unwrap());
    assert!(s.is_processed("feedB", "kept").unwrap());
    assert!(!s.is_processed("feedB", "id1").unwrap());
    assert!(!s.is_processed("feedA", "id3").unwrap());
    assert_eq!(sorted(s.get_processed_ids("feedA").unwrap()), vec!["id1".to_string(), "id2".to_string()]);
}

#[test]
fn empty_migration_changes_nothing() {
    let mut s = Storage::new(&fresh_path("bulk_empty")).unwrap();
    s.mark_processed("feed", "id").unwrap();
    s.mark_processed_bulk(vec![]).unwrap();
    assert_eq!(s.get_processed_ids("feed").unwrap(), vec!["id".to_string()]);
}

#[test]
fn ids_are_listed_by_feed() {
    let mut s = Storage::new(&fresh_path("list")).unwrap();
    s.mark_processed("a", "1").unwrap();
    s.mark_processed("a", "https://example.com/x?y=1:2").unwrap();
    s.mark_processed("a", "ünïcödé").unwrap();
    s.mark_processed("ab", "3").unwrap();
    s.mark_processed("b", "4").unwrap();
    assert_eq!(
        sorted(s.get_processed_ids("a").unwrap()),
        sorted(vec!["1".to_string(), "https://example.com/x?y=1:2".to_string(), "ünïcödé".to_string()])
    );
    assert_eq!(s.get_processed_ids("ab").unwrap(), vec!["3".to_string()]);
    assert_eq!(s.get_processed_ids("c").unwrap(), Vec::<String>::new());
}

#[test]
fn feed_name_with_separator_shares_keys() {
    let mut s = Storage::new(&fresh_path("separator")).unwrap();
    s.mark_processed("a:b", "c").unwrap();
    assert!(s.is_processed("a", "b:c").unwrap());
    assert_eq!(s.get_processed_ids("a").unwrap(), vec!["b:c".to_string()]);
}

#[test]
fn empty_id_can_be_marked() {
    let mut s = Storage::new(&fresh_path("empty_id")).unwrap();
    s.mark_processed("feed", "").unwrap();
    assert!(s.is_processed("feed", "").unwrap());
    assert_eq!(s.get_processed_ids("feed").unwrap(), vec![String::new()]);
}

#[test]
fn marks_survive_reopening() {
    let path = fresh_path("reopen");
    {
        let mut s = Storage::new(&path).unwrap();
        s.mark_processed("feed", "id").unwrap();
    }
    let s = Storage::new(&path).unwrap();
    assert!(s.is_processed("feed", "id").unwrap());
}

#[test]
fn key_that_is_not_text_is_reported() {
    let path = fresh_path("invalid");
    {
        let db = sled::open(&path).unwrap();
        db.insert(&b"feed:\xff\xfe"[..], &b""[..]).unwrap();
        db.insert(&b"other:fine"[..], &b""[..]).unwrap();
        db.flush().unwrap();
    }
    let s = Storage::new(&path).unwrap();
    assert!(matches!(s.get_processed_ids("feed"), Err(StorageError::InvalidKey)));
    assert_eq!(s.get_processed_ids("other").unwrap(), vec!["fine".to_string()]);
    assert!(!s.is_processed("feed", "x").unwrap());
}

#[test]
fn store_that_cannot_be_opened_is_reported() {
    assert!(matches!(Storage::new("/dev/null/ledger"), Err(StorageError::Backend(_))));
}

#[test]
fn flush_outcome_hands_on_the_fault() {
    assert!(flush_outcome(Ok(0)).is_ok());
    assert!(flush_outcome(Ok(4096)).is_ok());
    match flush_outcome(Err(sled::Error::Unsupported("no".to_string()))) {
        Err(StorageError::Backend(sled::Error::Unsupported(why))) => assert_eq!(why, "no"),
        other => panic!("{:?}", other),
    }
}

#[test]
fn opened_store_becomes_the_ledger() {
    let db = sled::open(fresh_path("opened")).unwrap();
    db.insert(&b"feed:kept"[..], &b""[..]).unwrap();
    let mut s = match Storage::from_opened(Ok(db)) {
        Ok(s) => s,
        Err(e) => panic!("{:?}", e),
    };
    assert!(s.is_processed("feed", "kept").unwrap());
    assert!(!s.is_processed("feed", "other").unwrap());
    s.mark_processed("feed", "other").unwrap();
    assert!(s.is_processed("feed", "other").unwrap());
}

#[test]
fn failed_opening_hands_on_the_fault() {
    match Storage::from_opened(Err(sled::Error::ReportableBug("broken".to_string()))) {
        Err(StorageError::Backend(sled::Error::ReportableBug(what))) => assert_eq!(what, "broken"),
        _ => panic!("the store's fault was not handed on"),
    }
}
