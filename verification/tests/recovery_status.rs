use codex_recall::recovery_status::{
    RuntimeDbSpec, completed_log, format_backup_paths, prepare_context, recovery_completed_status,
    recovery_failed_status, recovery_started_status, replace_context, run_context, started_log,
};

fn state_db() -> RuntimeDbSpec {
    RuntimeDbSpec {
        label: "state DB".to_string(),
    }
}

fn backups() -> Vec<String> {
    vec!["a.bak".to_string(), "b.bak".to_string()]
}

#[test]
fn recovery_status_messages_include_path_and_backup() {
    let db_path = "state.sqlite";
    let backup_path = "state.sqlite.codex-recovery-1.0.bak".to_string();

    assert_eq!(
        recovery_started_status(db_path, &state_db(), &vec![backup_path.clone()]),
        "Codex detected a malformed state DB at state.sqlite. Please wait while Codex attempts to recover it automatically. Backup files: state.sqlite.codex-recovery-1.0.bak"
    );
    assert_eq!(
        recovery_completed_status(db_path, &state_db()),
        "Codex successfully recovered state DB at state.sqlite."
    );
    assert_eq!(
        recovery_failed_status(db_path, &state_db(), &vec![backup_path]),
        "Codex could not automatically recover state DB at state.sqlite. Backup files remain at state.sqlite.codex-recovery-1.0.bak."
    );
}

#[test]
fn backup_paths_are_listed() {
    assert_eq!(format_backup_paths(&Vec::new()), "");
    assert_eq!(format_backup_paths(&backups()), "a.bak, b.bak");
}

#[test]
fn contexts_name_the_database() {
    assert_eq!(
        prepare_context("s.sqlite", &state_db()),
        "failed to prepare automatic recovery for state DB at s.sqlite"
    );
    assert_eq!(
        replace_context("s.sqlite", &state_db(), &backups()),
        "automatic recovery rebuilt state DB at s.sqlite but failed to replace the original database; backup files remain at a.bak, b.bak"
    );
    assert_eq!(
        run_context("s.sqlite", &state_db(), &backups()),
        "automatic recovery failed for state DB at s.sqlite; backup files remain at a.bak, b.bak"
    );
}

#[test]
fn log_messages() {
    assert_eq!(
        started_log("s.sqlite", &state_db(), "broken", &backups()),
        "state DB at s.sqlite appears malformed (broken); attempting automatic recovery after backing up to a.bak, b.bak"
    );
    assert_eq!(
        completed_log("s.sqlite", &state_db()),
        "automatically recovered state DB at s.sqlite with the SQLite recovery API"
    );
}
