use media_renamer::undo::{is_safe_backup_path, is_safe_undo_pair};
use tempfile::TempDir;

fn in_dir(tmp: &TempDir, rel: &str) -> String {
    tmp.path().join(rel).to_string_lossy().to_string()
}

#[test]
fn accepts_rename_inside_the_same_directory() {
    let tmp = TempDir::new().unwrap();
    let original = in_dir(&tmp, "before.heic");
    let renamed = in_dir(&tmp, "after.jpg");

    assert!(is_safe_undo_pair(&original, &renamed));
}

#[test]
fn rejects_parent_segments_and_cross_directory_renames() {
    let tmp = TempDir::new().unwrap();
    let original = in_dir(&tmp, "before.jpg");
    let parent_segment = in_dir(&tmp, "nested/../after.jpg");
    let other_directory = in_dir(&tmp, "nested/after.jpg");

    assert!(!is_safe_undo_pair(&original, &parent_segment));
    assert!(!is_safe_undo_pair(&original, &other_directory));
}

#[test]
fn accepts_only_the_matching_generated_backup_path() {
    let tmp = TempDir::new().unwrap();
    let original = in_dir(&tmp, "photo.heic");
    let valid = in_dir(&tmp, "backup_20260314_205542/photo.heic");
    let wrong_name = in_dir(&tmp, "backup_20260314_205542/other.heic");
    let wrong_directory = in_dir(&tmp, "archive/photo.heic");

    assert!(is_safe_backup_path(&original, &valid));
    assert!(!is_safe_backup_path(&original, &wrong_name));
    assert!(!is_safe_backup_path(&original, &wrong_directory));
}

#[test]
fn undo_pair_rejects_relative_paths() {
    assert!(!is_safe_undo_pair("photos/a.jpg", "photos/b.jpg"));
    assert!(is_safe_undo_pair("/photos/a.jpg", "/photos/b.jpg"));
}

#[test]
fn undo_pair_rejects_parent_segments_and_missing_names() {
    assert!(is_safe_undo_pair("/photos/./a.jpg", "/photos/b.jpg"));
    assert!(!is_safe_undo_pair("/photos/x/../a.jpg", "/photos/b.jpg"));
    assert!(!is_safe_undo_pair("/", "/b.jpg"));
    assert!(!is_safe_undo_pair("/photos/a.jpg", "/photos/.."));
}

#[test]
fn undo_pair_is_symmetric_on_examples() {
    assert_eq!(
        is_safe_undo_pair("/a/x.jpg", "/b/x.jpg"),
        is_safe_undo_pair("/b/x.jpg", "/a/x.jpg")
    );
    assert_eq!(
        is_safe_undo_pair("/a/x.jpg", "/a/y.jpg"),
        is_safe_undo_pair("/a/y.jpg", "/a/x.jpg")
    );
}

#[test]
fn backup_path_must_sit_in_a_backup_directory_next_to_the_original() {
    assert!(is_safe_backup_path("/p/photo.heic", "/p/backup_1/photo.heic"));
    assert!(!is_safe_backup_path("/p/photo.heic", "/p/backupx/photo.heic"));
    assert!(!is_safe_backup_path("/p/photo.heic", "/q/backup_1/photo.heic"));
    assert!(!is_safe_backup_path("/p/photo.heic", "/p/backup_1/../photo.heic"));
    assert!(!is_safe_backup_path("/p/photo.heic", "/p/photo.heic"));
    assert!(!is_safe_backup_path("/p/photo.heic", "p/backup_1/photo.heic"));
}
