use backupdbtool::workflow::BackupError;
use backupdbtool::pattern::{archives_in, GlobPattern};
use backupdbtool::storage::{
    next_page_token,
    local_listing, normalize_listing, sort_newest_first, stale_keys, CosItem, ListedObject,
    LocalEntry, LocalStorage,
};
use backupdbtool::time::Timestamp;

const TODAY_START: i64 = 1717200000;

fn ts(secs: i64) -> Timestamp {
    Timestamp { secs, nanos: 0 }
}

fn listed(key: &str, time: &str, size: u64) -> ListedObject {
    ListedObject { key: key.to_string(), last_modified: time.to_string(), size }
}

fn item(key: &str, secs: i64, size: u64) -> CosItem {
    CosItem { key: key.to_string(), last_modified: ts(secs), size }
}

fn keys(items: &[CosItem]) -> Vec<String> {
    items.iter().map(|i| i.key.clone()).collect()
}

fn is_newest_first(items: &[CosItem]) -> bool {
    items.windows(2).all(|w| w[0].last_modified.not_before(&w[1].last_modified))
}

#[test]
fn listing_reads_all_pages_drops_bad_times_and_sorts() {
    let pages = vec![
        vec![
            listed("db/a.7z", "2024-05-01T00:00:00Z", 10),
            listed("db/b.7z", "not a time", 20),
        ],
        vec![listed("db/c.7z", "2024-05-03T00:00:00Z", 30)],
        vec![],
        vec![listed("db/d.7z", "2024-05-02T00:00:00+00:00", 40)],
    ];
    let items = normalize_listing(&pages);
    assert_eq!(keys(&items), vec!["db/c.7z", "db/d.7z", "db/a.7z"]);
    assert_eq!(items[0].size, 30);
    assert!(is_newest_first(&items));
}

#[test]
fn listing_of_nothing_is_empty() {
    assert!(normalize_listing(&vec![]).is_empty());
    assert!(normalize_listing(&vec![vec![listed("k", "bad", 1)]]).is_empty());
}

#[test]
fn sort_orders_adjacent_pairs_newest_first() {
    let items = vec![item("a", 3, 1), item("b", 9, 1), item("c", 1, 1), item("d", 9, 2), item("e", 5, 1)];
    let sorted = sort_newest_first(items);
    assert!(is_newest_first(&sorted));
    assert_eq!(keys(&sorted), vec!["b", "d", "e", "a", "c"]);
}

#[test]
fn sort_breaks_sub_second_ties() {
    let mut a = item("a", 7, 1);
    a.last_modified.nanos = 5;
    let sorted = sort_newest_first(vec![item("b", 7, 1), a]);
    assert_eq!(keys(&sorted), vec!["a", "b"]);
}

#[test]
fn uploaded_file_is_listed_under_prefix() {
    // What an upload of ./backup.7z (11 bytes) under "db/" writes, then lists.
    let key = backupdbtool::naming::upload_key("./backup.7z", "db/").unwrap();
    let pages = vec![vec![listed(&key, "2024-06-01T10:00:00Z", 11)]];
    let items = normalize_listing(&pages);
    assert_eq!(items.len(), 1);
    assert!(items[0].key.ends_with("backup.7z"));
    assert!(items[0].key.starts_with("db/"));
    assert_eq!(items[0].size, 11);
}

#[test]
fn prune_keeps_empty_and_recent_objects() {
    let now = ts(TODAY_START + 3600);
    let items = vec![
        item("db/old.7z", TODAY_START - 3 * 86400, 100),
        item("db/old_empty.7z", TODAY_START - 3 * 86400, 0),
        item("db/yesterday.7z", TODAY_START - 1, 100),
        item("db/today.7z", TODAY_START + 10, 100),
        item("db/edge.7z", TODAY_START - 86400 - 1, 1),
    ];
    assert_eq!(stale_keys(&items, &now), vec!["db/old.7z", "db/edge.7z"]);
}

#[test]
fn prune_of_nothing_deletes_nothing() {
    assert!(stale_keys(&vec![], &ts(TODAY_START)).is_empty());
}

#[test]
fn local_listing_keeps_matching_files_newest_first() {
    let pattern = GlobPattern::new("*.txt").unwrap();
    let entries = vec![
        LocalEntry { name: "old.txt".to_string(), modified: ts(10), size: 3, is_file: true },
        LocalEntry { name: "test.txt".to_string(), modified: ts(20), size: 12, is_file: true },
        LocalEntry { name: "dir.txt".to_string(), modified: ts(30), size: 0, is_file: false },
        LocalEntry { name: "notes.md".to_string(), modified: ts(40), size: 5, is_file: true },
    ];
    let items = local_listing(&pattern, &entries);
    assert_eq!(keys(&items), vec!["test.txt", "old.txt"]);
    assert_eq!(items[0].size, 12);
}

#[test]
fn glob_rejects_bad_pattern() {
    assert!(GlobPattern::new("[").is_err());
    let p = GlobPattern::new("*.7z").unwrap();
    assert_eq!(p.as_str(), "*.7z");
    assert!(p.matches("a.7z"));
    assert!(!p.matches("a.sql"));
}

#[test]
fn cleanup_takes_every_archive_whatever_its_age() {
    let names = vec![
        "db_20240101_000000.7z".to_string(),
        "db_20240601_000000.7z".to_string(),
        "db_20240601_000000.sql".to_string(),
    ];
    let targets = archives_in("/backups", &names).unwrap();
    assert_eq!(
        targets,
        vec!["/backups/db_20240101_000000.7z", "/backups/db_20240601_000000.7z"]
    );
}

#[test]
fn local_target_path_is_under_base() {
    let s = LocalStorage { base_path: "/backups".to_string() };
    assert_eq!(s.target_path("test.txt"), "/backups/test.txt");
}

#[test]
fn local_delete_of_missing_file_is_a_storage_error() {
    assert_eq!(
        LocalStorage::check_delete("/backups/x.7z".to_string(), false),
        Err(BackupError::StorageError("File not found: /backups/x.7z".to_string()))
    );
    assert_eq!(LocalStorage::check_delete("/backups/x.7z".to_string(), true), Ok("/backups/x.7z".to_string()));
}

#[test]
fn paging_goes_on_only_with_a_token() {
    assert_eq!(next_page_token(true, "abc".to_string()), Some("abc".to_string()));
    assert_eq!(next_page_token(true, String::new()), None);
    assert_eq!(next_page_token(false, "abc".to_string()), None);
}
