//! Configuration of one run: the application settings and the settings of
//! each database engine and storage backend.

use crate::database::{MySql, PostgreSql};
use crate::naming::{join_path, joined};
use vstd::prelude::*;

verus! {

/// Every section of the configuration file.
#[derive(Debug)]
pub struct AllConfig {
    pub app: AppConfig,
    pub tencent_cos: TencentCosConfig,
    pub postgresql: PostgreSqlConfig,
    pub mysql: MySqlConfig,
    pub aliyun_oss: AliyunOssConfig,
    pub s3: S3OssConfig,
}

/// Settings of the tool itself.
#[derive(Debug)]
pub struct AppConfig {
    pub backup_dir: String,
    pub db_type: DbType,
    pub cos_provider: CosProvider,
    pub cos_path: String,
    pub compress_password: String,
}

#[derive(Debug)]
pub struct TencentCosConfig {
    pub secret_id: String,
    pub secret_key: String,
    pub region: String,
    pub bucket: String,
}

#[derive(Debug)]
pub struct AliyunOssConfig {
    pub secret_id: String,
    pub secret_key: String,
    pub end_point: String,
    pub bucket: String,
}

#[derive(Debug)]
pub struct S3OssConfig {
    pub secret_id: String,
    pub secret_key: String,
    pub end_point: Option<String>,
    pub bucket: String,
    pub region: Option<String>,
}

#[derive(Debug)]
pub struct PostgreSqlConfig {
    pub host: String,
    pub port: u16,
    pub username: String,
    pub password: String,
}

#[derive(Debug)]
pub struct MySqlConfig {
    pub host: String,
    pub port: u16,
    pub username: String,
    pub password: String,
}

/// The database engine to back up.
#[derive(Clone, Copy, Debug, PartialEq, Eq, Structural)]
pub enum DbType {
    Postgresql,
    MySql,
}

/// The storage backend that holds the archives.
#[derive(Clone, Copy, Debug, PartialEq, Eq, Structural)]
pub enum CosProvider {
    TencentCos,
    AliyunOss,
    LocalStorage,
    S3,
}

/// Two sets of PostgreSQL settings agree field by field.
pub open spec fn same_postgresql(a: PostgreSqlConfig, b: PostgreSqlConfig) -> bool {
    a.host@ == b.host@ && a.port == b.port && a.username@ == b.username@ && a.password@
        == b.password@
}

pub open spec fn same_mysql(a: MySqlConfig, b: MySqlConfig) -> bool {
    a.host@ == b.host@ && a.port == b.port && a.username@ == b.username@ && a.password@
        == b.password@
}

pub open spec fn same_tencent(a: TencentCosConfig, b: TencentCosConfig) -> bool {
    a.secret_id@ == b.secret_id@ && a.secret_key@ == b.secret_key@ && a.region@ == b.region@
        && a.bucket@ == b.bucket@
}

pub open spec fn same_aliyun(a: AliyunOssConfig, b: AliyunOssConfig) -> bool {
    a.secret_id@ == b.secret_id@ && a.secret_key@ == b.secret_key@ && a.end_point@
        == b.end_point@ && a.bucket@ == b.bucket@
}

pub open spec fn opt_view(o: Option<String>) -> Option<Seq<char>> {
    match o {
        Some(s) => Some(s@),
        None => None,
    }
}

pub open spec fn same_s3(a: S3OssConfig, b: S3OssConfig) -> bool {
    a.secret_id@ == b.secret_id@ && a.secret_key@ == b.secret_key@ && opt_view(a.end_point)
        == opt_view(b.end_point) && a.bucket@ == b.bucket@ && opt_view(a.region) == opt_view(
        b.region,
    )
}

impl PostgreSqlConfig {
    pub fn duplicate(&self) -> (r: PostgreSqlConfig)
        ensures
            same_postgresql(r, *self),
    {
        PostgreSqlConfig {
            host: self.host.clone(),
            port: self.port,
            username: self.username.clone(),
            password: self.password.clone(),
        }
    }
}

impl MySqlConfig {
    pub fn duplicate(&self) -> (r: MySqlConfig)
        ensures
            same_mysql(r, *self),
    {
        MySqlConfig {
            host: self.host.clone(),
            port: self.port,
            username: self.username.clone(),
            password: self.password.clone(),
        }
    }
}

fn copy_opt(o: &Option<String>) -> (r: Option<String>)
    ensures
        opt_view(r) == opt_view(*o),
{
    match o {
        Some(s) => Some(s.clone()),
        None => None,
    }
}

/// The chosen database engine, with its connection settings.
#[derive(Debug)]
pub enum DatabaseKind {
    PostgreSql(PostgreSql),
    MySql(MySql),
}

/// The chosen storage backend, with what is needed to reach it.
#[derive(Debug)]
pub enum StorageSettings {
    TencentCos(TencentCosConfig),
    AliyunOss(AliyunOssConfig),
    /// The local backend keeps archives under this directory.
    LocalStorage(String),
    S3(S3OssConfig),
}

/// The default directory for backups: `.dbbackup` under the home directory,
/// or under `~` where no home directory is known.
pub open spec fn default_backup_dir(home: Option<Seq<char>>) -> Seq<char> {
    match home {
        Some(h) => joined(h, ".dbbackup"@),
        None => joined("~"@, ".dbbackup"@),
    }
}

/// Relies on dirs' `home_dir`: the current user's home directory, where one
/// is known. It reads the environment, so nothing is promised of its value.
#[verifier::external_body]
fn home_dir() -> (r: Option<String>) {
    dirs::home_dir().map(|p| p.to_string_lossy().into_owned())
}

impl AppConfig {
    /// The defaults, given the home directory: PostgreSQL, Tencent COS,
    /// destination `db/` and the stock archive password.
    pub fn defaults_in(home: Option<String>) -> (r: AppConfig)
        ensures
            r.backup_dir@ == default_backup_dir(opt_view(home)),
            r.db_type == DbType::Postgresql,
            r.cos_provider == CosProvider::TencentCos,
            r.cos_path@ == "db/"@,
            r.compress_password@ == "dbbackuppassword"@,
    {
        let backup_dir = match &home {
            Some(h) => join_path(h.as_str(), ".dbbackup"),
            None => join_path("~", ".dbbackup"),
        };
        AppConfig {
            backup_dir,
            db_type: DbType::Postgresql,
            cos_provider: CosProvider::TencentCos,
            cos_path: String::from_str("db/"),
            compress_password: String::from_str("dbbackuppassword"),
        }
    }

    /// The directory that holds local dumps and archives.
    pub fn get_backup_dir(&self) -> (r: String)
        ensures
            r@ == self.backup_dir@,
    {
        self.backup_dir.clone()
    }

    /// The database engine that `db_type` selects, with its section of
    /// `config`.
    pub fn database(&self, config: &AllConfig) -> (r: DatabaseKind)
        ensures
            self.db_type == DbType::Postgresql ==> (r matches DatabaseKind::PostgreSql(p)
                && same_postgresql(p.0, config.postgresql)),
            self.db_type == DbType::MySql ==> (r matches DatabaseKind::MySql(m) && same_mysql(
                m.0,
                config.mysql,
            )),
    {
        match self.db_type {
            DbType::Postgresql => DatabaseKind::PostgreSql(PostgreSql::new(&config.postgresql)),
            DbType::MySql => DatabaseKind::MySql(MySql::new(&config.mysql)),
        }
    }

    /// The storage backend that `cos_provider` selects, with its section of
    /// `config`; the local backend lives in the configured backup directory.
    pub fn storage(&self, config: &AllConfig) -> (r: StorageSettings)
        ensures
            self.cos_provider == CosProvider::TencentCos ==> (r matches StorageSettings::TencentCos(
                c,
            ) && same_tencent(c, config.tencent_cos)),
            self.cos_provider == CosProvider::AliyunOss ==> (r matches StorageSettings::AliyunOss(c)
                && same_aliyun(c, config.aliyun_oss)),
            self.cos_provider == CosProvider::LocalStorage ==> (r matches StorageSettings::LocalStorage(
                d,
            ) && d@ == config.app.backup_dir@),
            self.cos_provider == CosProvider::S3 ==> (r matches StorageSettings::S3(c) && same_s3(
                c,
                config.s3,
            )),
    {
        match self.cos_provider {
            CosProvider::TencentCos => {
                let c = &config.tencent_cos;
                StorageSettings::TencentCos(
                    TencentCosConfig {
                        secret_id: c.secret_id.clone(),
                        secret_key: c.secret_key.clone(),
                        region: c.region.clone(),
                        bucket: c.bucket.clone(),
                    },
                )
            },
            CosProvider::AliyunOss => {
                let c = &config.aliyun_oss;
                StorageSettings::AliyunOss(
                    AliyunOssConfig {
                        secret_id: c.secret_id.clone(),
                        secret_key: c.secret_key.clone(),
                        end_point: c.end_point.clone(),
                        bucket: c.bucket.clone(),
                    },
                )
            },
            CosProvider::LocalStorage => StorageSettings::LocalStorage(config.app.get_backup_dir()),
            CosProvider::S3 => {
                let c = &config.s3;
                StorageSettings::S3(
                    S3OssConfig {
                        secret_id: c.secret_id.clone(),
                        secret_key: c.secret_key.clone(),
                        end_point: copy_opt(&c.end_point),
                        bucket: c.bucket.clone(),
                        region: copy_opt(&c.region),
                    },
                )
            },
        }
    }

    /// What a listing asks the backend for: the archive pattern on the
    /// local backend, the destination prefix on the others.
    pub fn listing_key(&self) -> (r: String)
        ensures
            self.cos_provider == CosProvider::LocalStorage ==> r@ == "*.7z"@,
            self.cos_provider != CosProvider::LocalStorage ==> r@ == self.cos_path@,
    {
        match self.cos_provider {
            CosProvider::LocalStorage => String::from_str("*.7z"),
            _ => self.cos_path.clone(),
        }
    }
}

impl Default for AppConfig {
    /// The defaults, with the backup directory under the current user's
    /// home directory.
    fn default() -> (r: AppConfig)
        ensures
            exists|home: Option<Seq<char>>| r.backup_dir@ == default_backup_dir(home),
            r.db_type == DbType::Postgresql,
            r.cos_provider == CosProvider::TencentCos,
            r.cos_path@ == "db/"@,
            r.compress_password@ == "dbbackuppassword"@,
    {
        let home = home_dir();
        AppConfig::defaults_in(home)
    }
}

/// Where an S3-compatible bucket lives: a custom endpoint, or a region
/// known by name.
#[derive(Debug)]
pub enum RegionChoice {
    Custom { region: String, endpoint: String },
    Named(String),
}

impl S3OssConfig {
    /// A configured endpoint selects a custom region (named by `region`,
    /// empty where none is given); otherwise `region` names a standard one.
    pub fn region_choice(&self) -> (r: RegionChoice)
        ensures
            match self.end_point {
                Some(e) => match r {
                    RegionChoice::Custom { region, endpoint } => endpoint@ == e@ && region@ == match self.region {
                        Some(g) => g@,
                        None => Seq::<char>::empty(),
                    },
                    _ => false,
                },
                None => match r {
                    RegionChoice::Named(n) => n@ == match self.region {
                        Some(g) => g@,
                        None => Seq::<char>::empty(),
                    },
                    _ => false,
                },
            },
    {
        let region = match &self.region {
            Some(g) => g.clone(),
            None => String::new(),
        };
        match &self.end_point {
            Some(e) => RegionChoice::Custom { region, endpoint: e.clone() },
            None => RegionChoice::Named(region),
        }
    }
}

} // verus!
