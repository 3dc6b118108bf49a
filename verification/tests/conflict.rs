use media_renamer::conflict::{resolve_conflict, resolve_conflict_with_limit};
use std::path::Path;
use tempfile::{NamedTempFile, TempDir};

fn touch(path: &Path) {
    let dir = path.parent().unwrap();
    NamedTempFile::new_in(dir).unwrap().persist(path).unwrap();
}

fn on_disk(p: &str) -> bool {
    Path::new(p).exists()
}

#[test]
fn conflict_resolution_uses_a_free_suffix() {
    let tmp = TempDir::new().unwrap();
    let target = tmp.path().join("photo.jpg");
    touch(&target);

    let resolved = resolve_conflict_with_limit(&target.to_string_lossy(), 2, &on_disk).unwrap();

    assert_eq!(Path::new(&resolved), tmp.path().join("photo_1.jpg"));
}

#[test]
fn conflict_resolution_never_returns_an_existing_target() {
    let tmp = TempDir::new().unwrap();
    let target = tmp.path().join("photo.jpg");
    touch(&target);
    touch(&tmp.path().join("photo_1.jpg"));

    let error = resolve_conflict_with_limit(&target.to_string_lossy(), 1, &on_disk).unwrap_err();

    assert!(error.contains("limit 1"));
}

#[test]
fn free_target_is_returned_unchanged() {
    let taken = |_: &str| false;
    assert_eq!(resolve_conflict_with_limit("/d/photo.jpg", 5, &taken).unwrap(), "/d/photo.jpg");
}

#[test]
fn suffixes_are_tried_in_order_until_one_is_free() {
    let taken = |p: &str| p == "/d/photo.jpg" || p == "/d/photo_1.jpg" || p == "/d/photo_2.jpg";
    assert_eq!(resolve_conflict_with_limit("/d/photo.jpg", 5, &taken).unwrap(), "/d/photo_3.jpg");
}

#[test]
fn names_without_extension_get_a_plain_suffix() {
    let taken = |p: &str| p == "/d/README";
    assert_eq!(resolve_conflict_with_limit("/d/README", 3, &taken).unwrap(), "/d/README_1");
}

#[test]
fn hidden_names_keep_their_leading_dot_as_stem() {
    let taken = |p: &str| p == "/d/.hidden";
    assert_eq!(resolve_conflict_with_limit("/d/.hidden", 3, &taken).unwrap(), "/d/.hidden_1");
}

#[test]
fn multi_digit_suffixes_are_decimal() {
    let taken = |p: &str| !p.ends_with("_12.jpg");
    assert_eq!(resolve_conflict_with_limit("/d/a.jpg", 20, &taken).unwrap(), "/d/a_12.jpg");
}

#[test]
fn all_taken_reports_the_limit() {
    let taken = |_: &str| true;
    assert_eq!(
        resolve_conflict_with_limit("/d/a.jpg", 0, &taken).unwrap_err(),
        "Too many conflicting files (limit 0). Cannot find a unique filename."
    );
    assert_eq!(
        resolve_conflict("/d/a.jpg", &taken).unwrap_err(),
        "Too many conflicting files (limit 9999). Cannot find a unique filename."
    );
}

#[test]
fn relative_target_without_parent_uses_its_own_directory() {
    let taken = |p: &str| p == "a.jpg";
    assert_eq!(resolve_conflict_with_limit("a.jpg", 3, &taken).unwrap(), "a_1.jpg");
}
