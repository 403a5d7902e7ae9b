use backupdbtool::workflow::{
    backup_step, check_single_upload, is_success_status, plan_delete, plan_upload,
    upload_failures, BackupAction, BackupError, BackupEvent, BackupState, DeletePlan, UploadPlan,
};

#[test]
fn backup_runs_dump_archive_cleanup() {
    let (s, a) = backup_step(BackupState::Dumping, BackupEvent::DumpWritten("/b/d.sql".into()));
    assert!(matches!(&a, BackupAction::RunArchive(p) if p == "/b/d.sql"));
    let (s, a) = backup_step(s, BackupEvent::ArchiveWritten("/b/d.7z".into()));
    assert!(matches!(&a, BackupAction::RemoveDump(p) if p == "/b/d.sql"));
    let (s, a) = backup_step(s, BackupEvent::DumpRemoved);
    assert!(matches!(a, BackupAction::Stop));
    assert!(matches!(&s, BackupState::Completed { archive_path, dump_left: false } if archive_path == "/b/d.7z"));
}

#[test]
fn failed_dump_removal_still_completes() {
    let s = BackupState::RemovingDump { dump_path: "/b/d.sql".into(), archive_path: "/b/d.7z".into() };
    let (s, a) = backup_step(s, BackupEvent::DumpRemovalFailed("busy".into()));
    assert!(matches!(a, BackupAction::Stop));
    assert!(matches!(&s, BackupState::Completed { archive_path, dump_left: true } if archive_path == "/b/d.7z"));
}

#[test]
fn failed_dump_aborts() {
    let (s, a) = backup_step(BackupState::Dumping, BackupEvent::DumpFailed("denied".into()));
    assert!(matches!(a, BackupAction::Stop));
    assert!(matches!(&s, BackupState::Failed { error: BackupError::ExternalToolFailure(m) } if m == "denied"));
}

#[test]
fn failed_archive_aborts_and_leaves_dump() {
    let s = BackupState::Archiving { dump_path: "/b/d.sql".into() };
    let (s, a) = backup_step(s, BackupEvent::ArchiveFailed("7z failed".into()));
    assert!(matches!(a, BackupAction::Stop));
    assert!(matches!(&s, BackupState::Failed { error: BackupError::ExternalToolFailure(m) } if m == "7z failed"));
}

#[test]
fn finished_runs_stay_finished() {
    let s = BackupState::Failed { error: BackupError::ExternalToolFailure("x".into()) };
    let (s, a) = backup_step(s, BackupEvent::DumpRemoved);
    assert!(matches!(a, BackupAction::Stop));
    assert!(matches!(s, BackupState::Failed { .. }));
    let (s, a) = backup_step(BackupState::Dumping, BackupEvent::DumpRemoved);
    assert!(matches!(a, BackupAction::Stop));
    assert!(matches!(s, BackupState::Failed { .. }));
}

#[test]
fn single_upload_of_missing_file_is_not_found() {
    let plan = plan_upload(Some("/nope/x.7z".into()), true).unwrap();
    let path = match plan {
        UploadPlan::Single(p) => p,
        UploadPlan::All => panic!("single file expected"),
    };
    assert_eq!(
        check_single_upload(path, false),
        Err(BackupError::NotFoundError("/nope/x.7z".into()))
    );
    assert_eq!(check_single_upload("/b/x.7z".into(), true), Ok("/b/x.7z".to_string()));
}

#[test]
fn upload_needs_a_target() {
    assert!(matches!(plan_upload(None, true), Ok(UploadPlan::All)));
    assert_eq!(
        plan_upload(None, false).err(),
        Some(BackupError::NoTarget("Please specify either --file or --all flag".to_string()))
    );
}

#[test]
fn delete_needs_a_target() {
    assert!(matches!(plan_delete(Some("db/a.7z".into()), false), Ok(DeletePlan::Single(k)) if k == "db/a.7z"));
    assert!(matches!(plan_delete(None, true), Ok(DeletePlan::AllStale)));
    assert_eq!(
        plan_delete(None, false).err(),
        Some(BackupError::NoTarget("Please specify either --key or --all flag".to_string()))
    );
}

#[test]
fn bulk_upload_reports_each_failure() {
    let files = vec!["a.7z".to_string(), "b.7z".to_string(), "c.7z".to_string()];
    let results = vec![Ok(()), Err("timeout".to_string()), Err("denied".to_string())];
    assert_eq!(
        upload_failures(&files, &results),
        vec![("b.7z".to_string(), "timeout".to_string()), ("c.7z".to_string(), "denied".to_string())]
    );
    let error = BackupError::StorageError("S3 upload failed".into());
    assert_eq!(error, BackupError::StorageError("S3 upload failed".into()));
}

#[test]
fn success_is_the_2xx_class() {
    assert!(is_success_status(200));
    assert!(is_success_status(204));
    assert!(!is_success_status(404));
    assert!(!is_success_status(301));
    assert!(!is_success_status(199));
}

#[test]
fn delete_succeeds_only_on_200_or_204() {
    assert!(backupdbtool::workflow::is_delete_success(200));
    assert!(backupdbtool::workflow::is_delete_success(204));
    assert!(!backupdbtool::workflow::is_delete_success(202));
    assert!(!backupdbtool::workflow::is_delete_success(404));
}

#[test]
fn dump_failure_names_database_and_stderr() {
    let m = backupdbtool::workflow::dump_failure_message("pg_dump", "shop", "role denied");
    assert_eq!(m, "pg_dump failed for database shop: role denied");
}
