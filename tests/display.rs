use backupdbtool::display::{format_minute, list_table, table_rows};
use backupdbtool::storage::CosItem;
use backupdbtool::time::Timestamp;

fn item(key: &str, secs: i64, size: u64) -> CosItem {
    CosItem { key: key.to_string(), last_modified: Timestamp { secs, nanos: 0 }, size }
}

#[test]
fn minute_stamp_of_instant() {
    assert_eq!(format_minute(&Timestamp { secs: 1717200000 + 3661, nanos: 0 }), "2024-06-01 01:01");
}

#[test]
fn rows_hold_key_time_and_decimal_size() {
    let rows = table_rows(&vec![item("db/a.7z", 1717200000, 1500), item("db/b.7z", 0, 12)]);
    assert_eq!(rows.len(), 3);
    assert_eq!(rows[0], CosItem::headers());
    assert_eq!(rows[1], vec!["db/a.7z", "2024-06-01 00:00", "1.50 kB"]);
    assert_eq!(rows[2], vec!["db/b.7z", "1970-01-01 00:00", "12 B"]);
}

#[test]
fn table_shows_header_and_rows() {
    let text = list_table(&vec![item("db/a.7z", 1717200000, 1500)]);
    assert!(text.contains("文件路径"));
    assert!(text.contains("db/a.7z"));
    assert!(text.contains("1.50 kB"));
    assert!(text.lines().count() >= 3);
}
