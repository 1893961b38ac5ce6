use std::collections::BTreeSet;

use codex_recall::recovery_files::{
    SiblingSearch, recovery_suffix, recovery_suffix_at, sqlite_paths, sqlite_sidecar_paths,
};
use codex_recall::recovery_prepare::{PrepareAction, PrepareRecovery, RecoveryPaths};

#[test]
fn suffixes_name_the_second() {
    assert_eq!(recovery_suffix_at(None), "codex-recovery-0");
    assert_eq!(recovery_suffix_at(Some(1)), "codex-recovery-1");
    assert_eq!(
        recovery_suffix_at(Some(1735905600)),
        "codex-recovery-1735905600"
    );
}

#[test]
fn the_suffix_of_now_is_after_the_epoch() {
    let suffix = recovery_suffix();
    let seconds: u64 = suffix
        .strip_prefix("codex-recovery-")
        .and_then(|digits| digits.parse().ok())
        .expect("a number of seconds");
    assert!(seconds > 1_700_000_000);
}

#[test]
fn databases_have_sidecars() {
    assert_eq!(
        sqlite_sidecar_paths("dir/s.sqlite"),
        vec!["dir/s.sqlite-wal", "dir/s.sqlite-shm"]
    );
    assert_eq!(
        sqlite_paths("s.sqlite"),
        vec!["s.sqlite", "s.sqlite-wal", "s.sqlite-shm"]
    );
}

#[test]
fn siblings_are_numbered() {
    let mut search = match SiblingSearch::new("s.sqlite", "codex-recovery-1", "bak") {
        Ok(search) => search,
        Err(_) => panic!("there is a name"),
    };
    assert_eq!(search.candidate(), "s.sqlite.codex-recovery-1.0.bak");
    search.advance();
    assert_eq!(search.candidate(), "s.sqlite.codex-recovery-1.1.bak");
    for _ in 0..9 {
        search.advance();
    }
    assert_eq!(search.candidate(), "s.sqlite.codex-recovery-1.10.bak");
}

#[test]
fn siblings_stay_in_their_directory() {
    for path in ["dir/s.sqlite", "/a/b/s.sqlite", "/s.sqlite"] {
        let search = match SiblingSearch::new(path, "x", "recovered") {
            Ok(search) => search,
            Err(_) => panic!("there is a name"),
        };
        let expected = std::path::Path::new(path).with_file_name("s.sqlite.x.0.recovered");
        assert_eq!(search.candidate(), expected.to_string_lossy());
    }
}

#[test]
fn siblings_stand_beside_what_they_are_copied_from() {
    for path in [
        "C:\\data\\s.sqlite",
        "C:/data/s.sqlite",
        "a:b/s.sqlite",
        "data\\s.sqlite",
        "//srv/share/s.sqlite",
        "//s.sqlite",
        "a//b/./s.sqlite/",
        "./s.sqlite/.",
    ] {
        let path = std::path::Path::new(path);
        let name = path.file_name().expect("a name").to_string_lossy();
        let text = path.to_string_lossy();
        let mut search = match SiblingSearch::new(text.as_ref(), "x", "bak") {
            Ok(search) => search,
            Err(_) => panic!("there is a name"),
        };
        for number in 0..3 {
            let expected = path.with_file_name(format!("{name}.x.{number}.bak"));
            assert_eq!(search.candidate(), expected.to_string_lossy());
            let copy = search.candidate();
            assert_eq!(std::path::Path::new(copy.as_str()).parent(), path.parent());
            search.advance();
        }
    }
}

#[test]
fn paths_without_a_name_have_no_siblings() {
    for path in ["", "/", "..", "a/.."] {
        match SiblingSearch::new(path, "x", "bak") {
            Err(message) => {
                assert_eq!(
                    message,
                    format!("cannot create a recovery file name for {path}")
                );
            }
            Ok(_) => panic!("there is no name"),
        }
    }
}

/// Prepares a recovery on a set of files.
fn prepare(files: &mut BTreeSet<String>, path: &str) -> Result<RecoveryPaths, String> {
    let mut prepare = PrepareRecovery::new(path, "codex-recovery-1");
    loop {
        match prepare.action() {
            PrepareAction::CheckExists { path } => {
                prepare = prepare.answered(files.contains(&path));
            }
            PrepareAction::Copy { from, to } => {
                assert!(files.contains(&from));
                assert!(files.insert(to), "nothing is overwritten");
                prepare = prepare.copied();
            }
            PrepareAction::Nothing => return prepare.finish(),
        }
    }
}

fn files(names: &[&str]) -> BTreeSet<String> {
    names.iter().map(|name| name.to_string()).collect()
}

#[test]
fn every_file_is_backed_up() {
    let mut disk = files(&["s.sqlite", "s.sqlite-wal", "s.sqlite-shm"]);
    let paths = prepare(&mut disk, "s.sqlite").expect("prepared");
    assert_eq!(paths.recovered_path, "s.sqlite.codex-recovery-1.0.recovered");
    assert_eq!(
        paths.backup_paths,
        vec![
            "s.sqlite.codex-recovery-1.0.bak",
            "s.sqlite-wal.codex-recovery-1.0.bak",
            "s.sqlite-shm.codex-recovery-1.0.bak",
        ]
    );
}

#[test]
fn missing_sidecars_are_skipped() {
    let mut disk = files(&["s.sqlite", "s.sqlite-shm"]);
    let paths = prepare(&mut disk, "s.sqlite").expect("prepared");
    assert_eq!(
        paths.backup_paths,
        vec![
            "s.sqlite.codex-recovery-1.0.bak",
            "s.sqlite-shm.codex-recovery-1.0.bak",
        ]
    );
}

#[test]
fn taken_names_are_passed_over() {
    let mut disk = files(&[
        "s.sqlite",
        "s.sqlite.codex-recovery-1.0.bak",
        "s.sqlite.codex-recovery-1.1.bak",
        "s.sqlite.codex-recovery-1.0.recovered",
    ]);
    let paths = prepare(&mut disk, "s.sqlite").expect("prepared");
    assert_eq!(
        paths.backup_paths,
        vec!["s.sqlite.codex-recovery-1.2.bak"]
    );
    assert_eq!(paths.recovered_path, "s.sqlite.codex-recovery-1.1.recovered");
}

#[test]
fn missing_databases_cannot_be_recovered() {
    let mut disk = files(&["s.sqlite-wal"]);
    assert_eq!(
        prepare(&mut disk, "s.sqlite").err(),
        Some("database file does not exist".to_string())
    );
    assert_eq!(disk.len(), 1);
}

#[test]
fn nameless_databases_cannot_be_backed_up() {
    let mut disk = files(&[".."]);
    assert_eq!(
        prepare(&mut disk, "..").err(),
        Some("cannot create a recovery file name for ..".to_string())
    );
}

#[test]
fn databases_that_vanish_cannot_be_recovered() {
    let mut prepare = PrepareRecovery::new("s.sqlite", "x").answered(true);
    for _ in 0..3 {
        prepare = prepare.answered(false);
    }
    assert!(matches!(prepare.action(), PrepareAction::Nothing));
    assert_eq!(
        prepare.finish().err(),
        Some("no database files were available to back up".to_string())
    );
}

#[test]
fn backups_are_no_other_files() {
    let mut disk = files(&["s.sqlite", "s.sqlite-wal"]);
    let paths = prepare(&mut disk, "s.sqlite").expect("prepared");
    for backup in &paths.backup_paths {
        for end in [".recovered", ".sqlite", "-wal", "-shm"] {
            assert!(!backup.ends_with(end));
        }
    }
    assert!(paths.recovered_path.ends_with(".recovered"));
}
