//! Database backup lifecycle: artifact naming, retention rules, listing
//! normalisation and the decisions of the backup, upload and prune workflows.

pub mod cli;
pub mod time;
pub mod text;
pub mod naming;
pub mod pattern;
pub mod storage;
pub mod config;
pub mod database;
pub mod compression;
pub mod workflow;
pub mod display;
