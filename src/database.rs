//! Database engines and the dump commands they run.

use crate::config::{same_mysql, same_postgresql, DatabaseKind, MySqlConfig, PostgreSqlConfig};
use crate::text::{decimal, push_decimal};
use vstd::prelude::*;

verus! {

/// A PostgreSQL server, dumped with `pg_dump`.
#[derive(Debug)]
pub struct PostgreSql(pub PostgreSqlConfig);

/// A MySQL server, dumped with `mysqldump`.
#[derive(Debug)]
pub struct MySql(pub MySqlConfig);

impl PostgreSql {
    pub fn new(config: &PostgreSqlConfig) -> (r: PostgreSql)
        ensures
            same_postgresql(r.0, *config),
    {
        PostgreSql(config.duplicate())
    }
}

impl MySql {
    pub fn new(config: &MySqlConfig) -> (r: MySql)
        ensures
            same_mysql(r.0, *config),
    {
        MySql(config.duplicate())
    }
}

/// An external program to run: its name, its arguments and the variables
/// added to its environment.
#[derive(Debug)]
pub struct ToolCommand {
    pub program: String,
    pub args: Vec<String>,
    pub env: Vec<(String, String)>,
}

pub struct CommandView {
    pub program: Seq<char>,
    pub args: Seq<Seq<char>>,
    pub env: Seq<(Seq<char>, Seq<char>)>,
}

impl View for ToolCommand {
    type V = CommandView;

    open spec fn view(&self) -> CommandView {
        CommandView {
            program: self.program@,
            args: self.args@.map_values(|a: String| a@),
            env: self.env@.map_values(|p: (String, String)| (p.0@, p.1@)),
        }
    }
}

/// A database engine that can be dumped by an external program, which
/// writes the dump to its standard output.
pub trait Database {
    spec fn dump_view(&self, database_name: Seq<char>) -> CommandView;

    /// The command that dumps database `database_name`.
    fn dump_command(&self, database_name: &str) -> (r: ToolCommand)
        ensures
            r@ == self.dump_view(database_name@),
    ;
}

/// `pg_dump -h HOST -p PORT -U USER -d NAME`, with the password in
/// `PGPASSWORD`.
pub open spec fn pg_dump_view(c: PostgreSqlConfig, database_name: Seq<char>) -> CommandView {
    CommandView {
        program: "pg_dump"@,
        args: seq![
            "-h"@,
            c.host@,
            "-p"@,
            decimal(c.port as nat),
            "-U"@,
            c.username@,
            "-d"@,
            database_name,
        ],
        env: seq![("PGPASSWORD"@, c.password@)],
    }
}

/// `mysqldump -h HOST -P PORT -u USER -pPASSWORD NAME`.
pub open spec fn mysqldump_view(c: MySqlConfig, database_name: Seq<char>) -> CommandView {
    CommandView {
        program: "mysqldump"@,
        args: seq![
            "-h"@,
            c.host@,
            "-P"@,
            decimal(c.port as nat),
            "-u"@,
            c.username@,
            "-p"@ + c.password@,
            database_name,
        ],
        env: Seq::empty(),
    }
}

fn decimal_string(n: u64) -> (r: String)
    ensures
        r@ == decimal(n as nat),
{
    let mut s = String::new();
    push_decimal(&mut s, n);
    assert(s@ =~= decimal(n as nat));
    s
}

/// `flag` followed directly by `value`, as one argument.
fn joined_flag(flag: &str, value: &str) -> (r: String)
    ensures
        r@ == flag@ + value@,
{
    let mut s = String::from_str(flag);
    s.append(value);
    s
}

impl Database for PostgreSql {
    open spec fn dump_view(&self, database_name: Seq<char>) -> CommandView {
        pg_dump_view(self.0, database_name)
    }

    fn dump_command(&self, database_name: &str) -> (r: ToolCommand) {
        let c = &self.0;
        let mut args: Vec<String> = Vec::new();
        args.push(String::from_str("-h"));
        args.push(c.host.clone());
        args.push(String::from_str("-p"));
        args.push(decimal_string(c.port as u64));
        args.push(String::from_str("-U"));
        args.push(c.username.clone());
        args.push(String::from_str("-d"));
        args.push(String::from_str(database_name));
        let mut env: Vec<(String, String)> = Vec::new();
        env.push((String::from_str("PGPASSWORD"), c.password.clone()));
        let r = ToolCommand { program: String::from_str("pg_dump"), args, env };
        assert(r@.args =~= pg_dump_view(self.0, database_name@).args);
        assert(r@.env =~= pg_dump_view(self.0, database_name@).env);
        r
    }
}

impl Database for MySql {
    open spec fn dump_view(&self, database_name: Seq<char>) -> CommandView {
        mysqldump_view(self.0, database_name)
    }

    fn dump_command(&self, database_name: &str) -> (r: ToolCommand) {
        let c = &self.0;
        let mut args: Vec<String> = Vec::new();
        args.push(String::from_str("-h"));
        args.push(c.host.clone());
        args.push(String::from_str("-P"));
        args.push(decimal_string(c.port as u64));
        args.push(String::from_str("-u"));
        args.push(c.username.clone());
        args.push(joined_flag("-p", c.password.as_str()));
        args.push(String::from_str(database_name));
        let env: Vec<(String, String)> = Vec::new();
        let r = ToolCommand { program: String::from_str("mysqldump"), args, env };
        assert(r@.args =~= mysqldump_view(self.0, database_name@).args);
        assert(r@.env =~= mysqldump_view(self.0, database_name@).env);
        r
    }
}

impl Database for DatabaseKind {
    open spec fn dump_view(&self, database_name: Seq<char>) -> CommandView {
        match self {
            DatabaseKind::PostgreSql(p) => pg_dump_view(p.0, database_name),
            DatabaseKind::MySql(m) => mysqldump_view(m.0, database_name),
        }
    }

    fn dump_command(&self, database_name: &str) -> (r: ToolCommand) {
        match self {
            DatabaseKind::PostgreSql(p) => p.dump_command(database_name),
            DatabaseKind::MySql(m) => m.dump_command(database_name),
        }
    }
}

} // verus!
