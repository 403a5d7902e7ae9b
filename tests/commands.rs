use backupdbtool::compression::archive_command;
use backupdbtool::config::{
    AliyunOssConfig, AllConfig, AppConfig, CosProvider, DatabaseKind, DbType, MySqlConfig,
    PostgreSqlConfig, RegionChoice, S3OssConfig, StorageSettings, TencentCosConfig,
};
use backupdbtool::database::{Database, MySql, PostgreSql};

fn pg() -> PostgreSqlConfig {
    PostgreSqlConfig { host: "localhost".into(), port: 5432, username: "user".into(), password: "pass".into() }
}

fn my() -> MySqlConfig {
    MySqlConfig { host: "db.local".into(), port: 3306, username: "root".into(), password: "pw".into() }
}

fn all_config(db_type: DbType, cos_provider: CosProvider) -> AllConfig {
    AllConfig {
        app: AppConfig {
            backup_dir: "/tmp/dbbackup".into(),
            db_type,
            cos_provider,
            cos_path: "db/".into(),
            compress_password: "testpassword".into(),
        },
        tencent_cos: TencentCosConfig {
            secret_id: "testid".into(),
            secret_key: "testkey".into(),
            region: "ap-guangzhou".into(),
            bucket: "testbucket".into(),
        },
        postgresql: pg(),
        mysql: my(),
        aliyun_oss: AliyunOssConfig {
            secret_id: "testid".into(),
            secret_key: "testkey".into(),
            end_point: "ap-guangzhou".into(),
            bucket: "testbucket".into(),
        },
        s3: S3OssConfig {
            secret_id: "id".into(),
            secret_key: "key".into(),
            end_point: None,
            bucket: "b".into(),
            region: Some("us-east-1".into()),
        },
    }
}

#[test]
fn pg_dump_command() {
    let c = PostgreSql::new(&pg()).dump_command("shop");
    assert_eq!(c.program, "pg_dump");
    assert_eq!(c.args, vec!["-h", "localhost", "-p", "5432", "-U", "user", "-d", "shop"]);
    assert_eq!(c.env, vec![("PGPASSWORD".to_string(), "pass".to_string())]);
}

#[test]
fn mysqldump_command() {
    let c = MySql::new(&my()).dump_command("shop");
    assert_eq!(c.program, "mysqldump");
    assert_eq!(c.args, vec!["-h", "db.local", "-P", "3306", "-u", "root", "-ppw", "shop"]);
    assert!(c.env.is_empty());
}

#[test]
fn archive_command_encrypts_header() {
    let plan = archive_command("/b/db_20240101_000000.sql", "secret");
    assert_eq!(plan.archive_path, "/b/db_20240101_000000.7z");
    assert_eq!(plan.command.program, "7z");
    assert_eq!(
        plan.command.args,
        vec![
            "a",
            "-t7z",
            "-m0=lzma2",
            "-mhe=on",
            "-psecret",
            "/b/db_20240101_000000.7z",
            "/b/db_20240101_000000.sql"
        ]
    );
}

#[test]
fn database_follows_db_type() {
    let config = all_config(DbType::MySql, CosProvider::S3);
    match config.app.database(&config) {
        DatabaseKind::MySql(m) => assert_eq!(m.0.host, "db.local"),
        DatabaseKind::PostgreSql(_) => panic!("mysql expected"),
    }
    let config = all_config(DbType::Postgresql, CosProvider::S3);
    let db = config.app.database(&config);
    assert_eq!(db.dump_command("x").program, "pg_dump");
}

#[test]
fn storage_follows_cos_provider() {
    let config = all_config(DbType::Postgresql, CosProvider::LocalStorage);
    assert!(matches!(config.app.storage(&config), StorageSettings::LocalStorage(d) if d == "/tmp/dbbackup"));
    let config = all_config(DbType::Postgresql, CosProvider::TencentCos);
    assert!(matches!(config.app.storage(&config), StorageSettings::TencentCos(c) if c.region == "ap-guangzhou"));
    let config = all_config(DbType::Postgresql, CosProvider::AliyunOss);
    assert!(matches!(config.app.storage(&config), StorageSettings::AliyunOss(c) if c.end_point == "ap-guangzhou"));
    let config = all_config(DbType::Postgresql, CosProvider::S3);
    assert!(matches!(config.app.storage(&config), StorageSettings::S3(c) if c.bucket == "b"));
}

#[test]
fn listing_key_per_provider() {
    let config = all_config(DbType::Postgresql, CosProvider::LocalStorage);
    assert_eq!(config.app.listing_key(), "*.7z");
    let config = all_config(DbType::Postgresql, CosProvider::S3);
    assert_eq!(config.app.listing_key(), "db/");
    assert_eq!(config.app.get_backup_dir(), "/tmp/dbbackup");
}

#[test]
fn defaults_live_under_home() {
    let c = AppConfig::defaults_in(Some("/home/u".into()));
    assert_eq!(c.backup_dir, "/home/u/.dbbackup");
    assert_eq!(c.db_type, DbType::Postgresql);
    assert_eq!(c.cos_provider, CosProvider::TencentCos);
    assert_eq!(c.cos_path, "db/");
    assert_eq!(c.compress_password, "dbbackuppassword");
    assert_eq!(AppConfig::defaults_in(None).backup_dir, "~/.dbbackup");
    assert!(AppConfig::default().backup_dir.ends_with("/.dbbackup"));
}

#[test]
fn s3_region_choice() {
    let mut c = all_config(DbType::Postgresql, CosProvider::S3).s3;
    assert!(matches!(c.region_choice(), RegionChoice::Named(r) if r == "us-east-1"));
    c.end_point = Some("http://minio:9000".into());
    c.region = None;
    assert!(matches!(c.region_choice(), RegionChoice::Custom { region, endpoint } if region.is_empty() && endpoint == "http://minio:9000"));
}
