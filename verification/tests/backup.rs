use media_renamer::backup::{backup_copy_error, backup_directory_error, backup_stamp, plan_backup};
use media_renamer::models::{DateSource, FileEntry};
use media_renamer::undo::is_safe_backup_path;
use std::path::{Path, PathBuf};
use tempfile::TempDir;

fn entry(path: &str, filename: &str) -> FileEntry {
    FileEntry {
        path: path.to_string(),
        filename: filename.to_string(),
        extension: "jpg".to_string(),
        date_source: DateSource::FileSystem,
        datetime: None,
        is_heic: false,
    }
}

#[test]
fn backup_uses_the_source_basename() {
    let tmp = TempDir::new().unwrap();
    let source = tmp.path().join("photo.jpg");

    let e = entry(&source.to_string_lossy(), "../escaped.jpg");

    let plan = plan_backup(&vec![e], "20240315_143052");
    assert!(plan.failure.is_none());
    assert_eq!(plan.groups.len(), 1);
    assert_eq!(plan.groups[0].copies.len(), 1);
    let backup = PathBuf::from(&plan.groups[0].copies[0].destination);

    assert_eq!(backup.file_name(), Some("photo.jpg".as_ref()));
    assert_eq!(backup.parent().and_then(Path::parent), Some(tmp.path()));
    assert!(!plan.groups[0].directory.contains("escaped"));
    assert!(!plan.groups[0].copies[0].destination.contains("escaped"));
}

#[test]
fn planned_backups_pass_the_undo_check() {
    let entries = vec![entry("/a/one.jpg", "one.jpg"), entry("/b/two.heic", "two.heic"), entry("/a/three.png", "x")];
    let plan = plan_backup(&entries, "20240315_143052");
    for g in &plan.groups {
        for c in &g.copies {
            assert!(is_safe_backup_path(&c.source, &c.destination), "{}", c.destination);
        }
    }
    assert_eq!(plan.groups[1].copies[0].destination, "/b/backup_20240315_143052/two.heic");
}

#[test]
fn backup_groups_files_by_directory_in_first_seen_order() {
    let entries = vec![
        entry("/a/one.jpg", "one.jpg"),
        entry("/b/two.jpg", "two.jpg"),
        entry("/a/three.jpg", "three.jpg"),
    ];
    let plan = plan_backup(&entries, "T");
    assert!(plan.failure.is_none());
    assert_eq!(plan.groups.len(), 2);
    assert_eq!(plan.groups[0].directory, "/a/backup_T");
    assert_eq!(plan.groups[0].copies.len(), 2);
    assert_eq!(plan.groups[0].copies[0].destination, "/a/backup_T/one.jpg");
    assert_eq!(plan.groups[0].copies[1].source, "/a/three.jpg");
    assert_eq!(plan.groups[1].directory, "/b/backup_T");
    assert_eq!(plan.groups[1].copies[0].destination, "/b/backup_T/two.jpg");
}

#[test]
fn backup_groups_equal_directories_written_differently() {
    let entries = vec![entry("/a/one.jpg", "one.jpg"), entry("/a//two.jpg", "two.jpg")];
    let plan = plan_backup(&entries, "T");
    assert_eq!(plan.groups.len(), 1);
    assert_eq!(plan.groups[0].copies[1].destination, "/a/backup_T/two.jpg");
}

#[test]
fn backup_of_a_path_without_file_name_fails_after_earlier_steps() {
    let entries = vec![entry("/a/one.jpg", "one.jpg"), entry("/a/..", "up"), entry("/a/two.jpg", "two.jpg")];
    let plan = plan_backup(&entries, "T");
    assert_eq!(plan.failure.as_deref(), Some("Failed to resolve filename for /a/.."));
    assert_eq!(plan.groups.len(), 1);
    assert_eq!(plan.groups[0].copies.len(), 1);
}

#[test]
fn backup_of_a_bare_name_uses_an_empty_parent() {
    let plan = plan_backup(&vec![entry("photo.jpg", "photo.jpg")], "T");
    assert_eq!(plan.groups[0].directory, "backup_T");
    assert_eq!(plan.groups[0].copies[0].destination, "backup_T/photo.jpg");
}

#[test]
fn backup_error_messages() {
    assert_eq!(backup_directory_error("denied"), "Failed to create backup directory: denied");
    assert_eq!(backup_copy_error("a.jpg", "disk full"), "Failed to backup a.jpg: disk full");
}

#[test]
fn backup_stamp_has_the_documented_form() {
    let now = media_renamer::dates::DateTimeFields::new(2024, 3, 15, 14, 30, 52, 0).unwrap();
    assert_eq!(backup_stamp(&now), "20240315_143052");
    let early = media_renamer::dates::DateTimeFields::new(7, 1, 2, 3, 4, 5, 0).unwrap();
    assert_eq!(backup_stamp(&early), "00070102_030405");
}
