use backupdbtool::naming::{
    archive_path, dump_file_name, dump_path, file_name_of, join_path, object_key, upload_key,
};
use backupdbtool::time::CivilTime;

fn at(year: i32, month: u32, day: u32, hour: u32, minute: u32, second: u32) -> CivilTime {
    CivilTime { year, month, day, hour, minute, second }
}

#[test]
fn dump_name_has_database_and_second_stamp() {
    let t = at(2024, 1, 1, 0, 0, 0);
    assert_eq!(dump_file_name("mydb", &t), "mydb_20240101_000000.sql");
    let t = at(2024, 12, 31, 23, 59, 58);
    assert_eq!(dump_file_name("orders", &t), "orders_20241231_235958.sql");
}

#[test]
fn dump_names_one_second_apart_differ() {
    let t1 = at(2024, 6, 1, 12, 0, 0);
    let t2 = at(2024, 6, 1, 12, 0, 1);
    assert_ne!(dump_file_name("db", &t1), dump_file_name("db", &t2));
}

#[test]
fn dump_names_in_the_same_second_collide() {
    let t1 = at(2024, 6, 1, 12, 0, 0);
    let t2 = at(2024, 6, 1, 12, 0, 0);
    assert_eq!(dump_file_name("db", &t1), dump_file_name("db", &t2));
}

#[test]
fn dump_name_years_outside_four_digits_carry_a_sign() {
    assert_eq!(dump_file_name("db", &at(12345, 1, 2, 3, 4, 5)), "db_+123450102_030405.sql");
    assert_eq!(dump_file_name("db", &at(-5, 1, 2, 3, 4, 5)), "db_-00050102_030405.sql");
    assert_eq!(dump_file_name("db", &at(7, 1, 2, 3, 4, 5)), "db_00070102_030405.sql");
}

#[test]
fn dump_path_joins_backup_dir() {
    let t = at(2024, 1, 1, 0, 0, 0);
    assert_eq!(dump_path("/var/backups", "db", &t), "/var/backups/db_20240101_000000.sql");
    assert_eq!(dump_path("/var/backups/", "db", &t), "/var/backups/db_20240101_000000.sql");
}

#[test]
fn join_path_puts_one_separator() {
    assert_eq!(join_path("/a", "b.7z"), "/a/b.7z");
    assert_eq!(join_path("/a/", "b.7z"), "/a/b.7z");
    assert_eq!(join_path("", "b.7z"), "b.7z");
    assert_eq!(join_path("/a", "/etc/x"), "/etc/x");
}

#[test]
fn archive_path_replaces_extension() {
    let dump = "/var/backups/db_20240101_000000.sql";
    let archive = archive_path(dump);
    assert_eq!(archive, "/var/backups/db_20240101_000000.7z");
    assert_ne!(archive, dump);
}

#[test]
fn archive_path_appends_where_no_extension() {
    assert_eq!(archive_path("/tmp/dump"), "/tmp/dump.7z");
    assert_eq!(archive_path("/tmp/.hidden"), "/tmp/.hidden.7z");
    assert_eq!(archive_path("/tmp.d/dump"), "/tmp.d/dump.7z");
    assert_eq!(archive_path("a.b.sql"), "a.b.7z");
}

#[test]
fn object_key_inserts_separator_when_missing() {
    assert_eq!(object_key("db/", "a.7z"), "db/a.7z");
    assert_eq!(object_key("db", "a.7z"), "db/a.7z");
}

#[test]
fn upload_key_uses_base_name() {
    assert_eq!(upload_key("/var/backups/a.7z", "db/"), Some("db/a.7z".to_string()));
    assert_eq!(upload_key("a.7z", "db"), Some("db/a.7z".to_string()));
    assert_eq!(upload_key("/var/backups/", "db/"), None);
    assert_eq!(upload_key("/var/..", "db/"), None);
}

#[test]
fn file_name_of_takes_last_component() {
    assert_eq!(file_name_of("/x/y/z.txt"), Some("z.txt".to_string()));
    assert_eq!(file_name_of("."), None);
}

#[test]
fn dump_path_now_reads_the_clock() {
    let p = backupdbtool::naming::dump_path_now("/b", "db");
    assert!(p.starts_with("/b/db_20"));
    assert!(p.ends_with(".sql"));
    assert_eq!(p.len(), "/b/db_20240101_000000.sql".len());
}
