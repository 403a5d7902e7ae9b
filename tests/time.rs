use backupdbtool::display::format_minute;
use backupdbtool::storage::{normalize_listing, ListedObject};
use backupdbtool::time::{is_yesterday_before, is_yesterday_before_at, retention_cutoff, Timestamp};

// 2024-06-01T00:00:00Z
const TODAY_START: i64 = 1717200000;

fn ts(secs: i64) -> Timestamp {
    Timestamp { secs, nanos: 0 }
}

#[test]
fn yesterday_last_second_is_not_stale() {
    let now = ts(TODAY_START + 12 * 3600);
    assert!(!is_yesterday_before_at(&ts(TODAY_START - 1), &now));
}

#[test]
fn two_days_ago_midnight_is_stale() {
    let now = ts(TODAY_START + 12 * 3600);
    assert!(is_yesterday_before_at(&ts(TODAY_START - 2 * 86400), &now));
}

#[test]
fn today_first_second_is_not_stale() {
    let now = ts(TODAY_START + 12 * 3600);
    assert!(!is_yesterday_before_at(&ts(TODAY_START + 1), &now));
}

#[test]
fn boundary_is_calendar_day_not_rolling_window() {
    // At the end of today an object 47 hours old is still from yesterday
    // and is kept; just after midnight one a little over 24 hours old is not.
    let late = ts(TODAY_START + 86399);
    assert!(!is_yesterday_before_at(&ts(TODAY_START + 86399 - 47 * 3600), &late));
    let early = ts(TODAY_START + 1);
    assert!(is_yesterday_before_at(&ts(TODAY_START - 86400 - 1), &early));
}

#[test]
fn days_before_the_epoch_use_floor() {
    let now = ts(0);
    assert!(!is_yesterday_before_at(&ts(-1), &now));
    assert!(!is_yesterday_before_at(&ts(-86400), &now));
    assert!(is_yesterday_before_at(&ts(-86401), &now));
}

#[test]
fn cutoff_is_start_of_yesterday() {
    let now = ts(TODAY_START + 5);
    assert_eq!(retention_cutoff(&now), ts(TODAY_START - 86400));
}

#[test]
fn clock_judges_past_and_future_instants() {
    let recent = Timestamp { secs: 4102444800, nanos: 0 }; // 2100-01-01
    assert!(!is_yesterday_before(&recent));
    assert!(is_yesterday_before(&ts(TODAY_START)));
}

fn parsed(time: &str) -> Option<Timestamp> {
    let page = vec![ListedObject { key: "k".to_string(), last_modified: time.to_string(), size: 1 }];
    normalize_listing(&vec![page]).first().map(|i| i.last_modified)
}

#[test]
fn parses_rfc3339_to_utc() {
    assert_eq!(parsed("2024-06-01T00:00:00Z"), Some(ts(TODAY_START)));
    assert_eq!(parsed("2024-06-01T08:00:00+08:00"), Some(ts(TODAY_START)));
    assert_eq!(
        parsed("2024-06-01T00:00:00.250Z"),
        Some(Timestamp { secs: TODAY_START, nanos: 250_000_000 })
    );
    assert_eq!(parsed("yesterday"), None);
    assert_eq!(parsed(""), None);
}

#[test]
fn calendar_fields_of_an_instant() {
    assert_eq!(format_minute(&ts(TODAY_START + 3661)), "2024-06-01 01:01");
    assert_eq!(format_minute(&ts(-1)), "1969-12-31 23:59");
    assert_eq!(format_minute(&ts(951782400)), "2000-02-29 00:00");
}

#[test]
fn timestamp_order() {
    assert!(ts(5).not_before(&ts(4)));
    assert!(ts(5).not_before(&ts(5)));
    assert!(!ts(4).not_before(&ts(5)));
    assert!(Timestamp { secs: 5, nanos: 1 }.not_before(&ts(5)));
    assert_eq!(ts(-1).utc_day(), -1);
    assert_eq!(ts(86399).utc_day(), 0);
}

#[test]
fn validity_of_instants() {
    assert!(ts(0).is_wf());
    assert!(ts(-1).is_wf());
    assert!(Timestamp { secs: 59, nanos: 1_500_000_000 }.is_wf());
    assert!(Timestamp { secs: -1, nanos: 1_500_000_000 }.is_wf());
    assert!(!Timestamp { secs: 58, nanos: 1_500_000_000 }.is_wf());
    assert!(!Timestamp { secs: 0, nanos: 2_000_000_000 }.is_wf());
    assert!(!ts(i64::MAX).is_wf());
    assert!(!ts(i64::MIN).is_wf());
}

#[test]
fn earliest_instant_is_chronos_first_day() {
    let first = ts(-8334601228800);
    assert!(first.is_wf());
    assert!(!ts(-8334601228801).is_wf());
    assert_eq!(format_minute(&first), "-262143-01-01 00:00");
    let last = ts(8210266876799);
    assert!(last.is_wf());
    assert_eq!(format_minute(&last), "+262142-12-31 23:59");
    assert_eq!(first.utc_day(), -96465292);
}
