use media_renamer::models::{DateSource, FileEntry, UndoLog};
use media_renamer::rename::{RenameAction, RenameEvent, RenameRun};
use media_renamer::undo::{UndoAction, UndoEvent, UndoRun};
use std::collections::HashMap;

fn entry(path: &str) -> FileEntry {
    FileEntry {
        path: path.to_string(),
        filename: path.rsplit('/').next().unwrap().to_string(),
        extension: "jpg".to_string(),
        date_source: DateSource::Exif,
        datetime: None,
        is_heic: false,
    }
}

/// Runs a rename over an in-memory file system (path -> content), resolving
/// collisions through the run itself; returns the saved undo log.
fn rename(fs: &mut HashMap<String, String>, entries: Vec<FileEntry>, names: &[&str]) -> UndoLog {
    rename_with(fs, entries, names, false, vec![])
}

fn rename_with(
    fs: &mut HashMap<String, String>,
    entries: Vec<FileEntry>,
    names: &[&str],
    convert: bool,
    backups: Vec<(String, String)>,
) -> UndoLog {
    let names = names.iter().map(|s| s.to_string()).collect();
    let (mut run, mut action) = RenameRun::new(entries, names, 0, convert, false, backups);
    let mut log = UndoLog { entries: vec![] };
    loop {
        let event = match action {
            RenameAction::ResolveConflict(_) => {
                let snapshot = fs.clone();
                action = run.resolve_and_next(&|p: &str| snapshot.contains_key(p));
                continue;
            }
            RenameAction::RenameFile { from, to } => {
                assert!(!fs.contains_key(&to), "rename onto an existing file {}", to);
                let content = fs.remove(&from).unwrap();
                fs.insert(to, content);
                RenameEvent::Completed(Ok(()))
            }
            RenameAction::ConvertHeic { from, to, .. } => {
                assert!(!fs.contains_key(&to));
                let converted = format!("jpeg of {}", fs[&from]);
                fs.insert(to, converted);
                RenameEvent::Completed(Ok(()))
            }
            RenameAction::RemoveFile(p) => {
                fs.remove(&p);
                RenameEvent::Completed(Ok(()))
            }
            RenameAction::SaveUndoLog(v) => {
                log = UndoLog { entries: v };
                RenameEvent::Completed(Ok(()))
            }
            RenameAction::Finished(_) => return log,
            _ => RenameEvent::Completed(Ok(())),
        };
        action = run.next(event);
    }
}

fn undo(fs: &mut HashMap<String, String>, log: UndoLog) -> Result<String, String> {
    let mut run = UndoRun::new(log);
    let mut event = UndoEvent::Start;
    loop {
        event = match run.next(event) {
            UndoAction::CheckExists(p) => UndoEvent::Exists(fs.contains_key(&p)),
            UndoAction::RemoveFile(p) => {
                fs.remove(&p);
                UndoEvent::Completed(Ok(()))
            }
            UndoAction::CopyFile { from, to } => {
                let c = fs[&from].clone();
                fs.insert(to, c);
                UndoEvent::Completed(Ok(()))
            }
            UndoAction::RenameFile { from, to } => {
                let c = fs.remove(&from).unwrap();
                fs.insert(to, c);
                UndoEvent::Completed(Ok(()))
            }
            UndoAction::ClearLog => UndoEvent::Completed(Ok(())),
            UndoAction::Finished(r) => return r,
        };
    }
}

#[test]
fn undo_restores_a_chain_of_renames() {
    let before: HashMap<String, String> = [("/d/a.jpg", "A"), ("/d/b.jpg", "B"), ("/d/c.jpg", "C")]
        .iter()
        .map(|(k, v)| (k.to_string(), v.to_string()))
        .collect();
    let mut fs = before.clone();
    // c moves away first, then b takes c's name, then a takes b's name.
    let log = rename(
        &mut fs,
        vec![entry("/d/c.jpg"), entry("/d/b.jpg"), entry("/d/a.jpg")],
        &["z.jpg", "c.jpg", "b.jpg"],
    );
    assert_eq!(log.entries.len(), 3);
    assert_eq!(fs["/d/b.jpg"], "A");
    assert_eq!(fs["/d/c.jpg"], "B");
    assert_eq!(fs["/d/z.jpg"], "C");
    assert_eq!(undo(&mut fs, log).unwrap(), "Successfully restored 3 files");
    assert_eq!(fs, before);
}

#[test]
fn collisions_resolved_by_the_run_never_overwrite() {
    let before: HashMap<String, String> =
        [("/d/a.jpg", "A"), ("/d/x.jpg", "X")].iter().map(|(k, v)| (k.to_string(), v.to_string())).collect();
    let mut fs = before.clone();
    let log = rename(&mut fs, vec![entry("/d/a.jpg")], &["x.jpg"]);
    assert_eq!(fs["/d/x.jpg"], "X");
    assert_eq!(fs["/d/x_1.jpg"], "A");
    assert_eq!(undo(&mut fs, log).unwrap(), "Successfully restored 1 files");
    assert_eq!(fs, before);
}

#[test]
fn undo_restores_converted_files_from_their_backups() {
    let before: HashMap<String, String> = [
        ("/d/a.heic", "HA"),
        ("/d/b.jpg", "B"),
        ("/d/backup_20240315_143052/a.heic", "HA"),
        ("/d/backup_20240315_143052/b.jpg", "B"),
    ]
    .iter()
    .map(|(k, v)| (k.to_string(), v.to_string()))
    .collect();
    let mut fs = before.clone();
    let mut heic = entry("/d/a.heic");
    heic.is_heic = true;
    heic.extension = "heic".to_string();
    let backups = vec![
        ("/d/a.heic".to_string(), "/d/backup_20240315_143052/a.heic".to_string()),
        ("/d/b.jpg".to_string(), "/d/backup_20240315_143052/b.jpg".to_string()),
    ];
    let log = rename_with(&mut fs, vec![entry("/d/b.jpg"), heic], &["z.jpg", "b.jpg"], true, backups);
    assert_eq!(fs["/d/b.jpg"], "jpeg of HA");
    assert!(!fs.contains_key("/d/a.heic"));
    assert_eq!(undo(&mut fs, log).unwrap(), "Successfully restored 2 files");
    assert_eq!(fs, before);
}
