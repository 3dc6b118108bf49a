use media_renamer::models::{UndoEntry, UndoLog};
use media_renamer::undo::{UndoAction, UndoEvent, UndoRun};
use std::collections::HashSet;

fn entry(original: &str, new: &str, heic: bool, backup: Option<&str>) -> UndoEntry {
    UndoEntry {
        original_path: original.to_string(),
        new_path: new.to_string(),
        was_heic_conversion: heic,
        backup_original_path: backup.map(|b| b.to_string()),
    }
}

/// Runs an undo against an in-memory set of existing files; returns the
/// result and the actions taken, in order.
fn drive(entries: Vec<UndoEntry>, fs: &mut HashSet<String>, fail_renames: bool) -> (Result<String, String>, Vec<String>) {
    let mut run = UndoRun::new(UndoLog { entries });
    let mut event = UndoEvent::Start;
    let mut trace = Vec::new();
    loop {
        match run.next(event) {
            UndoAction::CheckExists(p) => {
                trace.push(format!("exists {}", p));
                event = UndoEvent::Exists(fs.contains(&p));
            }
            UndoAction::RemoveFile(p) => {
                trace.push(format!("remove {}", p));
                fs.remove(&p);
                event = UndoEvent::Completed(Ok(()));
            }
            UndoAction::CopyFile { from, to } => {
                trace.push(format!("copy {} {}", from, to));
                fs.insert(to);
                event = UndoEvent::Completed(Ok(()));
            }
            UndoAction::RenameFile { from, to } => {
                trace.push(format!("rename {} {}", from, to));
                if fail_renames {
                    event = UndoEvent::Completed(Err("denied".to_string()));
                } else {
                    fs.remove(&from);
                    fs.insert(to);
                    event = UndoEvent::Completed(Ok(()));
                }
            }
            UndoAction::ClearLog => {
                trace.push("clear".to_string());
                event = UndoEvent::Completed(Ok(()));
            }
            UndoAction::Finished(r) => return (r, trace),
        }
    }
}

#[test]
fn undo_restores_entries_in_reverse_order() {
    let mut fs: HashSet<String> = ["/p/new_a.jpg", "/p/new_b.jpg"].iter().map(|s| s.to_string()).collect();
    let (r, trace) = drive(
        vec![entry("/p/a.jpg", "/p/new_a.jpg", false, None), entry("/p/b.jpg", "/p/new_b.jpg", false, None)],
        &mut fs,
        false,
    );
    assert_eq!(r, Ok("Successfully restored 2 files".to_string()));
    assert_eq!(
        trace,
        vec![
            "exists /p/new_b.jpg",
            "rename /p/new_b.jpg /p/b.jpg",
            "exists /p/new_a.jpg",
            "rename /p/new_a.jpg /p/a.jpg",
            "clear",
        ]
    );
    assert!(fs.contains("/p/a.jpg") && fs.contains("/p/b.jpg"));
}

#[test]
fn undo_skips_unsafe_entries_without_touching_files() {
    let mut fs: HashSet<String> = ["/q/new.jpg"].iter().map(|s| s.to_string()).collect();
    let (r, trace) = drive(
        vec![
            entry("/p/a.jpg", "/q/new.jpg", false, None),
            entry("relative.jpg", "/p/x.jpg", false, None),
        ],
        &mut fs,
        false,
    );
    assert_eq!(
        r,
        Ok("Restored 0 files with 2 errors: Unsafe paths in undo log entry for relative.jpg; Unsafe paths in undo log entry for /p/a.jpg".to_string())
    );
    assert_eq!(trace, vec!["clear"]);
}

#[test]
fn undo_reports_missing_files() {
    let mut fs = HashSet::new();
    let (r, _) = drive(vec![entry("/p/a.jpg", "/p/gone.jpg", false, None)], &mut fs, false);
    assert_eq!(r, Ok("Restored 0 files with 1 errors: File not found: /p/gone.jpg".to_string()));
}

#[test]
fn undo_reports_failed_renames() {
    let mut fs: HashSet<String> = ["/p/n.jpg"].iter().map(|s| s.to_string()).collect();
    let (r, _) = drive(vec![entry("/p/a.jpg", "/p/n.jpg", false, None)], &mut fs, true);
    assert_eq!(r, Ok("Restored 0 files with 1 errors: Failed to restore /p/n.jpg: denied".to_string()));
}

#[test]
fn undo_restores_converted_heic_from_backup() {
    let mut fs: HashSet<String> =
        ["/p/2024.jpg", "/p/backup_20240101_000000/img.heic"].iter().map(|s| s.to_string()).collect();
    let (r, trace) = drive(
        vec![entry("/p/img.heic", "/p/2024.jpg", true, Some("/p/backup_20240101_000000/img.heic"))],
        &mut fs,
        false,
    );
    assert_eq!(r, Ok("Successfully restored 1 files".to_string()));
    assert_eq!(
        trace,
        vec![
            "exists /p/backup_20240101_000000/img.heic",
            "exists /p/2024.jpg",
            "remove /p/2024.jpg",
            "copy /p/backup_20240101_000000/img.heic /p/img.heic",
            "clear",
        ]
    );
    assert!(fs.contains("/p/img.heic") && !fs.contains("/p/2024.jpg"));
}

#[test]
fn undo_of_conversion_without_backup_restores_a_jpg_name() {
    let mut fs: HashSet<String> = ["/p/2024.jpg"].iter().map(|s| s.to_string()).collect();
    let (r, trace) = drive(vec![entry("/p/img.heic", "/p/2024.jpg", true, None)], &mut fs, false);
    assert_eq!(r, Ok("Successfully restored 1 files".to_string()));
    assert_eq!(trace[1], "rename /p/2024.jpg /p/img.jpg");
}

#[test]
fn undo_rejects_foreign_backup_paths() {
    let mut fs: HashSet<String> = ["/p/2024.jpg", "/etc/img.heic"].iter().map(|s| s.to_string()).collect();
    let (r, trace) = drive(vec![entry("/p/img.heic", "/p/2024.jpg", true, Some("/etc/img.heic"))], &mut fs, false);
    assert_eq!(r, Ok("Restored 0 files with 1 errors: Unsafe backup path in undo log entry for /p/img.heic".to_string()));
    assert_eq!(trace, vec!["clear"]);
}

#[test]
fn undo_reports_missing_backup() {
    let mut fs: HashSet<String> = ["/p/2024.jpg"].iter().map(|s| s.to_string()).collect();
    let (r, _) = drive(vec![entry("/p/img.heic", "/p/2024.jpg", true, Some("/p/backup_x/img.heic"))], &mut fs, false);
    assert_eq!(r, Ok("Restored 0 files with 1 errors: Backup copy not found for /p/img.heic".to_string()));
}

#[test]
fn undo_reports_a_failed_log_clear() {
    let mut run = UndoRun::new(UndoLog { entries: vec![] });
    assert!(matches!(run.next(UndoEvent::Start), UndoAction::ClearLog));
    match run.next(UndoEvent::Completed(Err("locked".to_string()))) {
        UndoAction::Finished(r) => assert_eq!(r, Err("locked".to_string())),
        _ => panic!("expected the run to finish"),
    }
}

#[test]
fn undo_repeats_the_pending_action_on_an_unrelated_event() {
    let mut run = UndoRun::new(UndoLog { entries: vec![entry("/p/a.jpg", "/p/n.jpg", false, None)] });
    assert!(matches!(run.next(UndoEvent::Start), UndoAction::CheckExists(ref p) if p == "/p/n.jpg"));
    assert!(matches!(run.next(UndoEvent::Completed(Ok(()))), UndoAction::CheckExists(ref p) if p == "/p/n.jpg"));
}
