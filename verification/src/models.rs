//! The records exchanged with the user interface and stored in the undo log.

use vstd::prelude::*;

verus! {

/// Most supported files a single scan may return.
pub const MAX_SCAN_FILES: usize = 10000;

/// Largest numeric suffix tried when a target name is taken.
pub const MAX_COLLISION_SUFFIX: u32 = 9999;

/// JPEG quality used for HEIC conversion.
pub const HEIC_JPEG_QUALITY: u8 = 90;

/// Text form in which dates travel between scan, preview and rename.
pub const DATETIME_FORMAT: &'static str = "%Y-%m-%dT%H:%M:%S";

/// Form of the timestamp in the name of a backup directory.
pub const BACKUP_STAMP_FORMAT: &'static str = "%Y%m%d_%H%M%S";

/// Where the date of a file came from; `Missing` when no date could be read.
#[derive(Clone, Copy)]
pub enum DateSource {
    Exif,
    FileSystem,
    Missing,
}

impl DateSource {
    /// Whether a date is known at all.
    pub fn has_date(&self) -> (r: bool)
        ensures
            r == !(self is Missing),
    {
        match self {
            DateSource::Missing => false,
            _ => true,
        }
    }
}

/// A scanned media file.
pub struct FileEntry {
    pub path: String,
    pub filename: String,
    pub extension: String,
    pub date_source: DateSource,
    pub datetime: Option<String>,
    pub is_heic: bool,
}

/// A rename that can be undone.
pub struct UndoEntry {
    pub original_path: String,
    pub new_path: String,
    pub was_heic_conversion: bool,
    pub backup_original_path: Option<String>,
}

/// The log of the last rename run.
pub struct UndoLog {
    pub entries: Vec<UndoEntry>,
}

impl UndoLog {
    /// Whether there is anything to undo.
    pub fn has_entries(&self) -> (r: bool)
        ensures
            r == (self.entries@.len() > 0),
    {
        self.entries.len() > 0
    }
}

/// A file that a rename run could not handle, and why.
pub struct RenameErrorEntry {
    pub filename: String,
    pub reason: String,
}

/// Outcome of a rename run.
pub struct RenameResult {
    pub success_count: usize,
    pub error_count: usize,
    pub errors: Vec<RenameErrorEntry>,
}

/// The value of an optional string.
pub open spec fn opt_view(o: Option<String>) -> Option<Seq<char>> {
    match o {
        Some(s) => Some(s@),
        None => None,
    }
}

/// Mathematical value of a `FileEntry`.
pub struct FileEntryView {
    pub path: Seq<char>,
    pub filename: Seq<char>,
    pub extension: Seq<char>,
    pub has_date: bool,
    pub datetime: Option<Seq<char>>,
    pub is_heic: bool,
}

impl View for FileEntry {
    type V = FileEntryView;

    open spec fn view(&self) -> FileEntryView {
        FileEntryView {
            path: self.path@,
            filename: self.filename@,
            extension: self.extension@,
            has_date: !(self.date_source is Missing),
            datetime: opt_view(self.datetime),
            is_heic: self.is_heic,
        }
    }
}

/// Mathematical value of an `UndoEntry`.
pub struct UndoEntryView {
    pub original_path: Seq<char>,
    pub new_path: Seq<char>,
    pub was_heic_conversion: bool,
    pub backup_original_path: Option<Seq<char>>,
}

impl View for UndoEntry {
    type V = UndoEntryView;

    open spec fn view(&self) -> UndoEntryView {
        UndoEntryView {
            original_path: self.original_path@,
            new_path: self.new_path@,
            was_heic_conversion: self.was_heic_conversion,
            backup_original_path: opt_view(self.backup_original_path),
        }
    }
}

/// Mathematical value of a `RenameErrorEntry`.
pub struct RenameErrorView {
    pub filename: Seq<char>,
    pub reason: Seq<char>,
}

impl View for RenameErrorEntry {
    type V = RenameErrorView;

    open spec fn view(&self) -> RenameErrorView {
        RenameErrorView { filename: self.filename@, reason: self.reason@ }
    }
}

/// Values of a sequence of undo entries.
pub open spec fn undo_entries_view(v: Seq<UndoEntry>) -> Seq<UndoEntryView> {
    v.map_values(|e: UndoEntry| e@)
}

/// Values of a sequence of strings.
pub open spec fn strings_view(v: Seq<String>) -> Seq<Seq<char>> {
    v.map_values(|s: String| s@)
}

/// Values of a sequence of file entries.
pub open spec fn file_entries_view(v: Seq<FileEntry>) -> Seq<FileEntryView> {
    v.map_values(|e: FileEntry| e@)
}

/// Values of a sequence of rename errors.
pub open spec fn rename_errors_view(v: Seq<RenameErrorEntry>) -> Seq<RenameErrorView> {
    v.map_values(|e: RenameErrorEntry| e@)
}

} // verus!
