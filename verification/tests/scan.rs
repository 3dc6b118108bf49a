use media_renamer::dates::DateTimeFields;
use media_renamer::models::DateSource;
use media_renamer::scan::{
    ensure_scan_capacity, is_heic_extension, is_supported_extension, media_extension_of,
    scan_files_with_limit, scan_single_file,
};
use tempfile::TempDir;

fn no_date(_: &str) -> (Option<DateTimeFields>, DateSource) {
    (None, DateSource::FileSystem)
}

#[test]
fn scan_rejects_requests_above_the_file_limit() {
    let tmp = TempDir::new().unwrap();
    let paths = vec![
        tmp.path().join("one.jpg").to_string_lossy().to_string(),
        tmp.path().join("two.jpg").to_string_lossy().to_string(),
    ];

    let error = scan_files_with_limit(&paths, 1, &no_date).err().unwrap();

    assert!(error.contains("safety limit of 1"));
}

#[test]
fn scan_limit_message_is_exact() {
    assert_eq!(
        ensure_scan_capacity(3, 3).unwrap_err(),
        "Scan exceeds the safety limit of 3 supported files. Select fewer files or a smaller directory."
    );
    assert!(ensure_scan_capacity(2, 3).is_ok());
}

#[test]
fn scan_keeps_only_supported_media_in_order() {
    let paths = vec![
        "/p/a.JPG".to_string(),
        "/p/notes.txt".to_string(),
        "/p/noext".to_string(),
        "/p/clip.MoV".to_string(),
        "/p/img.heif".to_string(),
    ];
    let entries = scan_files_with_limit(&paths, 3, &no_date).ok().unwrap();
    assert_eq!(entries.len(), 3);
    assert_eq!(entries[0].path, "/p/a.JPG");
    assert_eq!(entries[0].filename, "a.JPG");
    assert_eq!(entries[0].extension, "jpg");
    assert!(!entries[0].is_heic);
    assert_eq!(entries[1].extension, "mov");
    assert_eq!(entries[2].filename, "img.heif");
    assert!(entries[2].is_heic);
}

#[test]
fn scan_with_exactly_the_limit_succeeds() {
    let paths = vec!["/p/a.jpg".to_string(), "/p/b.png".to_string(), "/p/c.txt".to_string()];
    assert_eq!(scan_files_with_limit(&paths, 2, &no_date).ok().unwrap().len(), 2);
    assert!(scan_files_with_limit(&paths, 1, &no_date).is_err());
}

#[test]
fn single_file_takes_the_date_from_the_reader() {
    let reader = |p: &str| {
        if p == "/p/a.jpg" {
            (
                DateTimeFields::new(2024, 3, 15, 14, 30, 52, 0),
                DateSource::Exif,
            )
        } else {
            (None, DateSource::Missing)
        }
    };
    let e = scan_single_file("/p/a.jpg", &reader).unwrap();
    assert_eq!(e.datetime.as_deref(), Some("2024-03-15T14:30:52"));
    assert!(matches!(e.date_source, DateSource::Exif));
    let f = scan_single_file("/p/b.gif", &reader).unwrap();
    assert!(f.datetime.is_none());
    assert!(matches!(f.date_source, DateSource::Missing));
}

#[test]
fn single_file_ignores_unsupported_and_hidden_names() {
    assert!(scan_single_file("/p/.jpg", &no_date).is_none());
    assert!(scan_single_file("/p/archive.zip", &no_date).is_none());
    assert!(scan_single_file("/p/dir/", &no_date).is_none());
    assert!(scan_single_file("/p/photo.JPEG", &no_date).is_some());
}

#[test]
fn extension_lists() {
    for ext in ["jpg", "jpeg", "png", "heic", "heif", "tiff", "tif", "webp", "gif", "bmp", "mp4", "mov", "avi", "mkv"] {
        assert!(is_supported_extension(ext), "{}", ext);
    }
    assert!(!is_supported_extension("JPG"));
    assert!(!is_supported_extension("txt"));
    assert!(is_heic_extension("heic"));
    assert!(is_heic_extension("heif"));
    assert!(!is_heic_extension("jpg"));
}

#[test]
fn dates_are_written_in_the_library_format() {
    let early = |_: &str| {
        (
            DateTimeFields::new(987, 1, 2, 3, 4, 5, 0),
            DateSource::FileSystem,
        )
    };
    let e = scan_single_file("/p/old.png", &early).unwrap();
    assert_eq!(e.datetime.as_deref(), Some("0987-01-02T03:04:05"));
}

#[test]
fn media_extension_is_lower_cased_and_checked() {
    assert_eq!(media_extension_of("/p/A.HEIC").as_deref(), Some("heic"));
    assert_eq!(media_extension_of("/p/readme.md"), None);
    assert_eq!(media_extension_of("/p/.png"), None);
}

#[test]
fn dates_outside_four_digit_years_and_leap_seconds() {
    let far = |_: &str| (DateTimeFields::new(-5, 12, 31, 23, 59, 59, 1_500_000_000), DateSource::Exif);
    let e = scan_single_file("/p/x.jpg", &far).unwrap();
    assert_eq!(e.datetime.as_deref(), Some("-0005-12-31T23:59:60"));
    let late = |_: &str| (DateTimeFields::new(12345, 1, 1, 0, 0, 0, 0), DateSource::Exif);
    let f = scan_single_file("/p/x.jpg", &late).unwrap();
    assert_eq!(f.datetime.as_deref(), Some("+12345-01-01T00:00:00"));
}

#[test]
fn date_fields_reject_days_that_do_not_exist() {
    assert!(DateTimeFields::new(2024, 2, 29, 0, 0, 0, 0).is_some());
    assert!(DateTimeFields::new(2023, 2, 29, 0, 0, 0, 0).is_none());
    assert!(DateTimeFields::new(1900, 2, 29, 0, 0, 0, 0).is_none());
    assert!(DateTimeFields::new(2000, 2, 29, 0, 0, 0, 0).is_some());
    assert!(DateTimeFields::new(2024, 4, 31, 0, 0, 0, 0).is_none());
    assert!(DateTimeFields::new(2024, 13, 1, 0, 0, 0, 0).is_none());
    assert!(DateTimeFields::new(2024, 1, 1, 24, 0, 0, 0).is_none());
    assert!(DateTimeFields::new(2024, 1, 1, 0, 0, 58, 1_000_000_000).is_none());
}
