//! The decisions of the three workflows: backup, upload and prune. The
//! caller performs each action and reports what happened.

use vstd::prelude::*;

verus! {

/// Why a workflow failed.
#[derive(Debug, PartialEq, Eq)]
pub enum BackupError {
    /// The dump or archive program failed; the text says how.
    ExternalToolFailure(String),
    /// A storage call failed; the text says how.
    StorageError(String),
    /// The local file to upload does not exist.
    NotFoundError(String),
    /// Neither a single target nor "all" was asked for.
    NoTarget(String),
}

/// Where a backup run stands.
#[derive(Debug)]
pub enum BackupState {
    /// The dump program is running.
    Dumping,
    /// The dump is written; the archive program is running.
    Archiving { dump_path: String },
    /// The archive is written; the raw dump is being removed.
    RemovingDump { dump_path: String, archive_path: String },
    /// The archive exists. `dump_left` tells whether removing the raw
    /// dump failed, which does not fail the run.
    Completed { archive_path: String, dump_left: bool },
    /// The dump or archive step failed; nothing was uploaded or removed.
    Failed { error: BackupError },
}

/// What the caller observed after performing the last action.
#[derive(Debug)]
pub enum BackupEvent {
    DumpWritten(String),
    DumpFailed(String),
    ArchiveWritten(String),
    ArchiveFailed(String),
    DumpRemoved,
    DumpRemovalFailed(String),
}

/// What the caller does next.
#[derive(Debug)]
pub enum BackupAction {
    /// Run the archive program on this dump.
    RunArchive(String),
    /// Remove this raw dump; failure is only logged.
    RemoveDump(String),
    /// The run is over.
    Stop,
}

impl BackupState {
    pub open spec fn is_terminal(&self) -> bool {
        self is Completed || self is Failed
    }
}

pub open spec fn is_archiving(s: BackupState, dump: Seq<char>) -> bool {
    match s {
        BackupState::Archiving { dump_path } => dump_path@ == dump,
        _ => false,
    }
}

pub open spec fn is_removing(s: BackupState, dump: Seq<char>, archive: Seq<char>) -> bool {
    match s {
        BackupState::RemovingDump { dump_path, archive_path } => dump_path@ == dump
            && archive_path@ == archive,
        _ => false,
    }
}

pub open spec fn is_completed(s: BackupState, archive: Seq<char>, left: bool) -> bool {
    match s {
        BackupState::Completed { archive_path, dump_left } => archive_path@ == archive && dump_left
            == left,
        _ => false,
    }
}

pub open spec fn is_tool_failure(s: BackupState, message: Seq<char>) -> bool {
    match s {
        BackupState::Failed { error: BackupError::ExternalToolFailure(m) } => m@ == message,
        _ => false,
    }
}

pub open spec fn runs_archive(a: BackupAction, dump: Seq<char>) -> bool {
    match a {
        BackupAction::RunArchive(d) => d@ == dump,
        _ => false,
    }
}

pub open spec fn removes_dump(a: BackupAction, dump: Seq<char>) -> bool {
    match a {
        BackupAction::RemoveDump(d) => d@ == dump,
        _ => false,
    }
}

/// The transition of the backup run on `event` in `state`.
pub open spec fn backup_transition(
    state: BackupState,
    event: BackupEvent,
    r: (BackupState, BackupAction),
) -> bool {
    match (state, event) {
        (BackupState::Dumping, BackupEvent::DumpWritten(p)) => is_archiving(r.0, p@) && runs_archive(
            r.1,
            p@,
        ),
        (BackupState::Dumping, BackupEvent::DumpFailed(m)) => is_tool_failure(r.0, m@) && r.1 is Stop,
        (BackupState::Archiving { dump_path }, BackupEvent::ArchiveWritten(a)) => is_removing(
            r.0,
            dump_path@,
            a@,
        ) && removes_dump(r.1, dump_path@),
        (BackupState::Archiving { dump_path: _ }, BackupEvent::ArchiveFailed(m)) => is_tool_failure(
            r.0,
            m@,
        ) && r.1 is Stop,
        (BackupState::RemovingDump { dump_path: _, archive_path }, BackupEvent::DumpRemoved) =>
            is_completed(r.0, archive_path@, false) && r.1 is Stop,
        (
            BackupState::RemovingDump { dump_path: _, archive_path },
            BackupEvent::DumpRemovalFailed(_),
        ) => is_completed(r.0, archive_path@, true) && r.1 is Stop,
        (BackupState::Completed { .. }, _) => r.0 == state && r.1 is Stop,
        (BackupState::Failed { .. }, _) => r.0 == state && r.1 is Stop,
        _ => r.0 is Failed && r.1 is Stop,
    }
}

/// One step of the backup run: dump, then archive, then remove the raw
/// dump. A failed dump or archive ends the run (the raw dump stays for
/// inspection); a failed removal does not. An event that does not belong to
/// the current state ends a running state as a failure and leaves a
/// finished one as it is.
pub fn backup_step(state: BackupState, event: BackupEvent) -> (r: (BackupState, BackupAction))
    ensures
        backup_transition(state, event, r),
        r.1 is Stop <==> r.0.is_terminal(),
{
    match (state, event) {
        (BackupState::Dumping, BackupEvent::DumpWritten(p)) => {
            let q = p.clone();
            (BackupState::Archiving { dump_path: p }, BackupAction::RunArchive(q))
        },
        (BackupState::Dumping, BackupEvent::DumpFailed(m)) => (
            BackupState::Failed { error: BackupError::ExternalToolFailure(m) },
            BackupAction::Stop,
        ),
        (BackupState::Archiving { dump_path }, BackupEvent::ArchiveWritten(a)) => {
            let q = dump_path.clone();
            (BackupState::RemovingDump { dump_path, archive_path: a }, BackupAction::RemoveDump(q))
        },
        (BackupState::Archiving { dump_path: _ }, BackupEvent::ArchiveFailed(m)) => (
            BackupState::Failed { error: BackupError::ExternalToolFailure(m) },
            BackupAction::Stop,
        ),
        (BackupState::RemovingDump { dump_path: _, archive_path }, BackupEvent::DumpRemoved) => (
            BackupState::Completed { archive_path, dump_left: false },
            BackupAction::Stop,
        ),
        (
            BackupState::RemovingDump { dump_path: _, archive_path },
            BackupEvent::DumpRemovalFailed(_),
        ) => (BackupState::Completed { archive_path, dump_left: true }, BackupAction::Stop),
        (BackupState::Completed { archive_path, dump_left }, _) => (
            BackupState::Completed { archive_path, dump_left },
            BackupAction::Stop,
        ),
        (BackupState::Failed { error }, _) => (BackupState::Failed { error }, BackupAction::Stop),
        (_, _) => (
            BackupState::Failed {
                error: BackupError::ExternalToolFailure(String::from_str("unexpected step")),
            },
            BackupAction::Stop,
        ),
    }
}

/// What an upload request asks for.
#[derive(Debug)]
pub enum UploadPlan {
    /// Check that this local file exists, then upload it.
    Single(String),
    /// Upload every archive of the backup directory.
    All,
}

/// The upload request: a single file takes precedence over "all"; with
/// neither, the request is refused.
pub fn plan_upload(file: Option<String>, all: bool) -> (r: Result<UploadPlan, BackupError>)
    ensures
        match file {
            Some(f) => match r {
                Ok(UploadPlan::Single(g)) => g@ == f@,
                _ => false,
            },
            None => if all {
                r matches Ok(UploadPlan::All)
            } else {
                r matches Err(BackupError::NoTarget(m)) && m@
                    == "Please specify either --file or --all flag"@
            },
        },
{
    match file {
        Some(f) => Ok(UploadPlan::Single(f)),
        None => {
            if all {
                Ok(UploadPlan::All)
            } else {
                Err(BackupError::NoTarget(String::from_str("Please specify either --file or --all flag")))
            }
        },
    }
}

/// A single upload goes ahead only for a file that exists; a missing file
/// fails with `NotFoundError` before any storage call.
pub fn check_single_upload(path: String, exists: bool) -> (r: Result<String, BackupError>)
    ensures
        exists ==> (r matches Ok(p) && p@ == path@),
        !exists ==> (r matches Err(BackupError::NotFoundError(p)) && p@ == path@),
{
    if exists {
        Ok(path)
    } else {
        Err(BackupError::NotFoundError(path))
    }
}

/// What a delete request asks for.
#[derive(Debug)]
pub enum DeletePlan {
    /// Delete this one key.
    Single(String),
    /// Delete every stale object under the configured prefix.
    AllStale,
}

/// The delete request: a single key takes precedence over "all"; with
/// neither, the request is refused.
pub fn plan_delete(key: Option<String>, all: bool) -> (r: Result<DeletePlan, BackupError>)
    ensures
        match key {
            Some(k) => match r {
                Ok(DeletePlan::Single(g)) => g@ == k@,
                _ => false,
            },
            None => if all {
                r matches Ok(DeletePlan::AllStale)
            } else {
                r matches Err(BackupError::NoTarget(m)) && m@
                    == "Please specify either --key or --all flag"@
            },
        },
{
    match key {
        Some(k) => Ok(DeletePlan::Single(k)),
        None => {
            if all {
                Ok(DeletePlan::AllStale)
            } else {
                Err(BackupError::NoTarget(String::from_str("Please specify either --key or --all flag")))
            }
        },
    }
}

/// The failures of a bulk upload, in order: each file whose upload failed,
/// with its error.
pub open spec fn failures(files: Seq<String>, results: Seq<Result<(), String>>) -> Seq<(Seq<char>, Seq<char>)>
    decreases files.len(),
{
    if files.len() == 0 || results.len() != files.len() {
        Seq::empty()
    } else {
        let rest = failures(files.drop_last(), results.drop_last());
        match results.last() {
            Ok(_) => rest,
            Err(e) => rest.push((files.last()@, e@)),
        }
    }
}

/// Pairs each failed upload with its file, so that no failure of the
/// concurrent uploads goes unreported.
pub fn upload_failures(files: &Vec<String>, results: &Vec<Result<(), String>>) -> (r: Vec<(String, String)>)
    requires
        files.len() == results.len(),
    ensures
        r@.map_values(|p: (String, String)| (p.0@, p.1@)) == failures(files@, results@),
{
    let mut out: Vec<(String, String)> = Vec::new();
    let mut i: usize = 0;
    while i < files.len()
        invariant
            files.len() == results.len(),
            0 <= i <= files.len(),
            out@.map_values(|p: (String, String)| (p.0@, p.1@)) == failures(
                files@.subrange(0, i as int),
                results@.subrange(0, i as int),
            ),
        decreases files.len() - i,
    {
        proof {
            assert(files@.subrange(0, i + 1).drop_last() =~= files@.subrange(0, i as int));
            assert(results@.subrange(0, i + 1).drop_last() =~= results@.subrange(0, i as int));
        }
        match &results[i] {
            Ok(_) => {},
            Err(e) => {
                out.push((files[i].clone(), e.clone()));
                proof {
                    assert(out@.map_values(|p: (String, String)| (p.0@, p.1@)) =~= failures(
                        files@.subrange(0, i as int),
                        results@.subrange(0, i as int),
                    ).push((files@[i as int]@, e@)));
                }
            },
        }
        i = i + 1;
    }
    proof {
        assert(files@.subrange(0, i as int) =~= files@);
        assert(results@.subrange(0, i as int) =~= results@);
    }
    out
}

/// A delete succeeded: the service answered 200 or 204.
pub fn is_delete_success(status: u16) -> (r: bool)
    ensures
        r == (status == 200 || status == 204),
{
    status == 200 || status == 204
}

/// The message of a failed dump: it names the program and the database and
/// carries what the program wrote to its standard error.
pub fn dump_failure_message(program: &str, database_name: &str, stderr: &str) -> (r: String)
    ensures
        r@ == program@ + " failed for database "@ + database_name@ + ": "@ + stderr@,
{
    let mut m = String::from_str(program);
    m.append(" failed for database ");
    m.append(database_name);
    m.append(": ");
    m.append(stderr);
    m
}

/// An upload succeeded: the service answered with a 2xx status.
pub fn is_success_status(status: u16) -> (r: bool)
    ensures
        r == (200 <= status < 300),
{
    200 <= status && status < 300
}

} // verus!
