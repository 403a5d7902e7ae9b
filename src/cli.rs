//! What one invocation asks for.

use vstd::prelude::*;

verus! {

/// One invocation: the workflow to run and the configuration file to read.
#[derive(Debug)]
pub struct Cli {
    pub command: Commands,
    pub config: String,
}

/// The workflows.
#[derive(Debug)]
pub enum Commands {
    /// Back up one database.
    Backup { database_name: String },
    /// Upload one file, or every archive of the backup directory.
    Upload { file: Option<String>, all: bool },
    /// Delete one key, or every stale object.
    Delete { key: Option<String>, all: bool },
    /// List the stored archives.
    List,
    /// Show the tool's version.
    Version,
}

} // verus!
