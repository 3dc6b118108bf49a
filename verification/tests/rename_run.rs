use media_renamer::conflict::resolve_conflict_with_limit;
use media_renamer::models::{DateSource, FileEntry, RenameResult, UndoEntry, UndoLog};
use media_renamer::undo::{UndoAction, UndoEvent, UndoRun};
use media_renamer::rename::{RenameAction, RenameEvent, RenameRun};
use std::collections::HashSet;

fn entry(path: &str, date: bool, heic: bool, datetime: Option<&str>) -> FileEntry {
    let filename = path.rsplit('/').next().unwrap().to_string();
    FileEntry {
        path: path.to_string(),
        filename,
        extension: if heic { "heic".to_string() } else { "jpg".to_string() },
        date_source: if date { DateSource::Exif } else { DateSource::Missing },
        datetime: datetime.map(|d| d.to_string()),
        is_heic: heic,
    }
}

struct Outcome {
    result: RenameResult,
    undo: Vec<UndoEntry>,
    trace: Vec<String>,
}

fn drive(run_and_first: (RenameRun, RenameAction), fs: &mut HashSet<String>, convert_ok: bool) -> Outcome {
    let (mut run, mut action) = run_and_first;
    let mut trace = Vec::new();
    let mut undo = Vec::new();
    loop {
        let event = match action {
            RenameAction::EmitProgress { current, total, filename } => {
                trace.push(format!("progress {}/{} {}", current, total, filename));
                RenameEvent::Completed(Ok(()))
            }
            RenameAction::ResolveConflict(p) => {
                trace.push(format!("resolve {}", p));
                let taken = |q: &str| fs.contains(q);
                RenameEvent::Resolved(resolve_conflict_with_limit(&p, 3, &taken))
            }
            RenameAction::ConvertHeic { from, to, quality } => {
                trace.push(format!("convert {} {} {}", from, to, quality));
                if convert_ok {
                    fs.insert(to);
                    RenameEvent::Completed(Ok(()))
                } else {
                    RenameEvent::Completed(Err("no decoder".to_string()))
                }
            }
            RenameAction::RemoveFile(p) => {
                trace.push(format!("remove {}", p));
                fs.remove(&p);
                RenameEvent::Completed(Ok(()))
            }
            RenameAction::RenameFile { from, to } => {
                trace.push(format!("rename {} {}", from, to));
                fs.remove(&from);
                fs.insert(to);
                RenameEvent::Completed(Ok(()))
            }
            RenameAction::ApplyOffset { path, timestamp, write_exif } => {
                trace.push(format!("offset {} {} {}", path, timestamp, write_exif));
                RenameEvent::Completed(Ok(()))
            }
            RenameAction::SaveUndoLog(v) => {
                trace.push("save".to_string());
                undo = v;
                RenameEvent::Completed(Ok(()))
            }
            RenameAction::Finished(result) => return Outcome { result, undo, trace },
        };
        action = run.next(event);
    }
}

fn set(items: &[&str]) -> HashSet<String> {
    items.iter().map(|s| s.to_string()).collect()
}

#[test]
fn rename_moves_files_and_records_undo() {
    let mut fs = set(&["/p/IMG_1.jpg", "/p/2024_03_15__143052.jpg"]);
    let entries = vec![entry("/p/IMG_1.jpg", true, false, None)];
    let names = vec!["2024_03_15__143052.jpg".to_string()];
    let out = drive(RenameRun::new(entries, names, 0, false, false, vec![]), &mut fs, true);
    assert_eq!(out.result.success_count, 1);
    assert_eq!(out.result.error_count, 0);
    assert_eq!(
        out.trace,
        vec![
            "progress 1/1 IMG_1.jpg",
            "resolve /p/2024_03_15__143052.jpg",
            "rename /p/IMG_1.jpg /p/2024_03_15__143052_1.jpg",
            "save",
        ]
    );
    assert_eq!(out.undo.len(), 1);
    assert_eq!(out.undo[0].original_path, "/p/IMG_1.jpg");
    assert_eq!(out.undo[0].new_path, "/p/2024_03_15__143052_1.jpg");
    assert!(!out.undo[0].was_heic_conversion);
    assert!(out.undo[0].backup_original_path.is_none());
}

#[test]
fn rename_skips_files_without_date() {
    let mut fs = set(&["/p/a.jpg"]);
    let out = drive(
        RenameRun::new(vec![entry("/p/a.jpg", false, false, None)], vec!["b.jpg".to_string()], 0, false, false, vec![]),
        &mut fs,
        true,
    );
    assert_eq!(out.result.success_count, 0);
    assert_eq!(out.result.error_count, 1);
    assert_eq!(out.result.errors[0].filename, "a.jpg");
    assert_eq!(out.result.errors[0].reason, "No date available, skipped");
    assert_eq!(out.trace, vec!["progress 1/1 a.jpg", "save"]);
}

#[test]
fn unchanged_name_only_shifts_timestamps() {
    let mut fs = set(&["/p/a.jpg"]);
    let out = drive(
        RenameRun::new(
            vec![entry("/p/a.jpg", true, false, Some("1970-01-01T01:00:00"))],
            vec!["a.jpg".to_string()],
            60,
            false,
            true,
            vec![],
        ),
        &mut fs,
        true,
    );
    assert_eq!(out.result.success_count, 1);
    assert_eq!(out.trace, vec!["progress 1/1 a.jpg", "offset /p/a.jpg 3660 true", "save"]);
    assert!(out.undo.is_empty());
}

#[test]
fn heic_conversion_removes_the_original_and_records_the_backup() {
    let mut fs = set(&["/p/img.heic"]);
    let backups = vec![("/p/img.heic".to_string(), "/p/backup_T/img.heic".to_string())];
    let out = drive(
        RenameRun::new(vec![entry("/p/img.heic", true, true, None)], vec!["new.jpg".to_string()], 0, true, false, backups),
        &mut fs,
        true,
    );
    assert_eq!(out.result.success_count, 1);
    assert_eq!(
        out.trace,
        vec!["progress 1/1 img.heic", "resolve /p/new.jpg", "convert /p/img.heic /p/new.jpg 90", "remove /p/img.heic", "save"]
    );
    assert!(out.undo[0].was_heic_conversion);
    assert_eq!(out.undo[0].backup_original_path.as_deref(), Some("/p/backup_T/img.heic"));
}

#[test]
fn failed_heic_conversion_falls_back_to_a_plain_rename() {
    let mut fs = set(&["/p/img.heic"]);
    let out = drive(
        RenameRun::new(vec![entry("/p/img.heic", true, true, None)], vec!["new.jpg".to_string()], 0, true, false, vec![]),
        &mut fs,
        false,
    );
    assert_eq!(out.result.success_count, 1);
    assert_eq!(out.result.error_count, 1);
    assert_eq!(out.result.errors[0].reason, "HEIC\u{2192}JPG failed: no decoder, renamed without conversion");
    assert_eq!(out.trace[3], "resolve /p/new.heic");
    assert_eq!(out.trace[4], "rename /p/img.heic /p/new.heic");
    assert_eq!(out.undo[0].new_path, "/p/new.heic");
    assert!(!out.undo[0].was_heic_conversion);
}

#[test]
fn collisions_beyond_the_limit_are_errors() {
    let mut fs = set(&["/p/a.jpg", "/p/b.jpg", "/p/b_1.jpg", "/p/b_2.jpg", "/p/b_3.jpg"]);
    let out = drive(
        RenameRun::new(vec![entry("/p/a.jpg", true, false, None)], vec!["b.jpg".to_string()], 0, false, false, vec![]),
        &mut fs,
        true,
    );
    assert_eq!(out.result.success_count, 0);
    assert_eq!(out.result.errors[0].reason, "Too many conflicting files (limit 3). Cannot find a unique filename.");
}

#[test]
fn progress_counts_all_entries() {
    let mut fs = set(&["/p/a.jpg", "/p/b.jpg"]);
    let out = drive(
        RenameRun::new(
            vec![entry("/p/a.jpg", true, false, None), entry("/p/b.jpg", true, false, None)],
            vec!["x.jpg".to_string(), "y.jpg".to_string()],
            0,
            false,
            false,
            vec![],
        ),
        &mut fs,
        true,
    );
    assert_eq!(out.result.success_count, 2);
    assert_eq!(out.trace[0], "progress 1/2 a.jpg");
    assert_eq!(out.trace[3], "progress 2/2 b.jpg");
    assert!(fs.contains("/p/x.jpg") && fs.contains("/p/y.jpg"));
}

#[test]
fn rename_then_undo_restores_the_original_names() {
    let mut fs = set(&["/p/a.jpg", "/p/b.jpg"]);
    let out = drive(
        RenameRun::new(
            vec![entry("/p/a.jpg", true, false, None), entry("/p/b.jpg", true, false, None)],
            vec!["2024_01_01__000000.jpg".to_string(), "2024_01_02__000000.jpg".to_string()],
            0,
            false,
            false,
            vec![],
        ),
        &mut fs,
        true,
    );
    assert_eq!(out.result.success_count, 2);
    assert!(fs.contains("/p/2024_01_01__000000.jpg") && !fs.contains("/p/a.jpg"));

    let mut run = UndoRun::new(UndoLog { entries: out.undo });
    let mut event = UndoEvent::Start;
    let message = loop {
        event = match run.next(event) {
            UndoAction::CheckExists(p) => UndoEvent::Exists(fs.contains(&p)),
            UndoAction::RenameFile { from, to } => {
                fs.remove(&from);
                fs.insert(to);
                UndoEvent::Completed(Ok(()))
            }
            UndoAction::ClearLog => UndoEvent::Completed(Ok(())),
            UndoAction::Finished(r) => break r,
            _ => panic!("unexpected undo step"),
        };
    };
    assert_eq!(message, Ok("Successfully restored 2 files".to_string()));
    assert_eq!(fs, set(&["/p/a.jpg", "/p/b.jpg"]));
}

#[test]
fn error_count_matches_the_errors_of_a_mixed_run() {
    let mut fs = set(&["/p/a.jpg", "/p/b.jpg", "/p/img.heic"]);
    let out = drive(
        RenameRun::new(
            vec![
                entry("/p/a.jpg", false, false, None),
                entry("/p/b.jpg", true, false, None),
                entry("/p/img.heic", true, true, None),
            ],
            vec!["x.jpg".to_string(), "y.jpg".to_string(), "z.jpg".to_string()],
            0,
            true,
            false,
            vec![],
        ),
        &mut fs,
        false,
    );
    assert_eq!(out.result.success_count, 2);
    assert_eq!(out.result.error_count, out.result.errors.len());
    assert_eq!(out.result.error_count, 2);
    assert!(out.result.success_count + out.result.errors.len() >= 3);
    assert!(out.undo.len() <= out.result.success_count);
}

#[test]
fn only_entries_with_a_new_name_are_handled() {
    let mut fs = set(&["/p/a.jpg", "/p/b.jpg"]);
    let out = drive(
        RenameRun::new(
            vec![entry("/p/a.jpg", true, false, None), entry("/p/b.jpg", true, false, None)],
            vec!["x.jpg".to_string()],
            0,
            false,
            false,
            vec![],
        ),
        &mut fs,
        true,
    );
    assert_eq!(out.result.success_count, 1);
    assert_eq!(out.trace, vec!["progress 1/2 a.jpg", "resolve /p/x.jpg", "rename /p/a.jpg /p/x.jpg", "save"]);
}
