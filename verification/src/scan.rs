//! Selecting the supported media files among scanned paths.

use vstd::prelude::*;

use crate::dates::{date_text, date_text_of, DateTimeFields};
use crate::models::{opt_view, DateSource, FileEntry, MAX_SCAN_FILES};
use crate::path::{
    extension_of, file_name, path_parts, spec_extension, spec_file_name, std_path_components,
};
use crate::text::{concat3, dec, decimal_string, str_equal};

verus! {

/// What `str::to_lowercase` returns.
pub uninterp spec fn std_str_to_lowercase(s: Seq<char>) -> Seq<char>;

/// An ASCII character lower-cased: `A` to `Z` become `a` to `z`.
pub open spec fn ascii_lower(c: char) -> char {
    if 'A' <= c <= 'Z' {
        ((c as int) + 32) as char
    } else {
        c
    }
}

/// Whether every character of `s` is ASCII.
pub open spec fn is_ascii_text(s: Seq<char>) -> bool {
    forall|i: int| 0 <= i < s.len() ==> (s[i] as int) < 128
}

/// Lower-cases a string with `str::to_lowercase` (full Unicode case mapping).
/// The contract names the result, and states what std documents for ASCII
/// text: each character is mapped on its own, `A` to `Z` to `a` to `z`, the
/// rest unchanged.
#[verifier::external_body]
pub(crate) fn to_lowercase(s: &str) -> (r: String)
    ensures
        r@ == std_str_to_lowercase(s@),
        is_ascii_text(s@) ==> r@ == s@.map_values(|c: char| ascii_lower(c)),
{
    s.to_lowercase()
}

/// The supported image and video extensions, in lower case.
pub open spec fn spec_is_supported_extension(ext: Seq<char>) -> bool {
    ||| ext == "jpg"@
    ||| ext == "jpeg"@
    ||| ext == "png"@
    ||| ext == "heic"@
    ||| ext == "heif"@
    ||| ext == "tiff"@
    ||| ext == "tif"@
    ||| ext == "webp"@
    ||| ext == "gif"@
    ||| ext == "bmp"@
    ||| ext == "mp4"@
    ||| ext == "mov"@
    ||| ext == "avi"@
    ||| ext == "mkv"@
}

/// The HEIC/HEIF extensions, in lower case.
pub open spec fn spec_is_heic_extension(ext: Seq<char>) -> bool {
    ext == "heic"@ || ext == "heif"@
}

/// Whether a lower-case extension is one of the supported media types.
pub fn is_supported_extension(ext: &str) -> (r: bool)
    ensures
        r == spec_is_supported_extension(ext@),
{
    str_equal(ext, "jpg") || str_equal(ext, "jpeg") || str_equal(ext, "png") || str_equal(ext, "heic")
        || str_equal(ext, "heif") || str_equal(ext, "tiff") || str_equal(ext, "tif") || str_equal(
        ext,
        "webp",
    ) || str_equal(ext, "gif") || str_equal(ext, "bmp") || str_equal(ext, "mp4") || str_equal(
        ext,
        "mov",
    ) || str_equal(ext, "avi") || str_equal(ext, "mkv")
}

/// Whether a lower-case extension is HEIC or HEIF.
pub fn is_heic_extension(ext: &str) -> (r: bool)
    ensures
        r == spec_is_heic_extension(ext@),
{
    str_equal(ext, "heic") || str_equal(ext, "heif")
}

/// The lower-cased extension of `path` when the path names a supported
/// media file, and nothing otherwise.
pub open spec fn media_extension(path: Seq<char>) -> Option<Seq<char>> {
    match spec_file_name(std_path_components(path)) {
        Some(name) => match spec_extension(name) {
            Some(x) => if spec_is_supported_extension(std_str_to_lowercase(x)) {
                Some(std_str_to_lowercase(x))
            } else {
                None
            },
            None => None,
        },
        None => None,
    }
}

/// `read_date` answered `(datetime, source)` for `path`.
pub open spec fn dated_by<F: Fn(&str) -> (Option<DateTimeFields>, DateSource)>(
    read_date: F,
    path: Seq<char>,
    datetime: Option<DateTimeFields>,
    source: DateSource,
) -> bool {
    exists|s: &str| s@ == path && #[trigger] call_ensures(read_date, (s,), (datetime, source))
}

/// The text a date travels in: the date written `YYYY-MM-DDTHH:MM:SS`.
pub open spec fn date_text_view(datetime: Option<DateTimeFields>) -> Option<Seq<char>> {
    match datetime {
        Some(d) => Some(date_text(d@)),
        None => None,
    }
}

/// `entry` is the scan result for the media file at `path`: its path, file
/// name, lower-cased extension, whether it is HEIC, the date source
/// `read_date` reports for it, and the date it reports, written
/// `YYYY-MM-DDTHH:MM:SS`.
pub open spec fn describes<F: Fn(&str) -> (Option<DateTimeFields>, DateSource)>(
    read_date: F,
    entry: FileEntry,
    path: Seq<char>,
) -> bool {
    &&& media_extension(path) is Some
    &&& entry.path@ == path
    &&& spec_file_name(std_path_components(path)) == Some(entry.filename@)
    &&& entry.extension@ == media_extension(path)->0
    &&& entry.is_heic == spec_is_heic_extension(entry.extension@)
    &&& exists|dt: Option<DateTimeFields>|
        #[trigger] dated_by(read_date, path, dt, entry.date_source) && opt_view(entry.datetime)
            == date_text_view(dt)
}

/// The lower-cased extension of `path` when it names a supported media
/// file (see `media_extension`).
pub fn media_extension_of(path: &str) -> (r: Option<String>)
    ensures
        opt_view(r) == media_extension(path@),
{
    let parts = path_parts(path);
    let name = match file_name(&parts) {
        Some(n) => n,
        None => { return None; },
    };
    let raw_ext = match extension_of(name.as_str()) {
        Some(x) => x,
        None => { return None; },
    };
    let ext = to_lowercase(raw_ext.as_str());
    if !is_supported_extension(ext.as_str()) {
        return None;
    }
    Some(ext)
}

/// Describes the file at `path` when it is a supported media file: its path,
/// file name, lower-cased extension, whether it is HEIC, and the date that
/// `read_date` reports for it. `read_date` is asked only for media files.
pub fn scan_single_file<F: Fn(&str) -> (Option<DateTimeFields>, DateSource)>(
    path: &str,
    read_date: &F,
) -> (r: Option<FileEntry>)
    requires
        forall|s: &str| #[trigger] read_date.requires((s,)),
    ensures
        match r {
            Some(e) => describes(*read_date, e, path@),
            None => media_extension(path@) is None,
        },
{
    let ext = match media_extension_of(path) {
        Some(x) => x,
        None => { return None; },
    };
    let parts = path_parts(path);
    let name = match file_name(&parts) {
        Some(n) => n,
        None => { return None; },
    };
    let (dt, date_source) = read_date(path);
    let ghost read = dt;
    let datetime = match &dt {
        Some(d) => Some(date_text_of(d)),
        None => None,
    };
    let is_heic = is_heic_extension(ext.as_str());
    let entry = FileEntry {
        path: String::from_str(path),
        filename: name,
        extension: ext,
        date_source,
        datetime,
        is_heic,
    };
    assert(dated_by(*read_date, path@, read, entry.date_source));
    Some(entry)
}

/// The error when a scan finds more supported files than allowed.
pub open spec fn scan_limit_message(max_files: nat) -> Seq<char> {
    "Scan exceeds the safety limit of "@ + dec(max_files)
        + " supported files. Select fewer files or a smaller directory."@
}

/// Fails when `current_count` files already fill the limit.
pub fn ensure_scan_capacity(current_count: usize, max_files: usize) -> (r: Result<(), String>)
    ensures
        match r {
            Ok(()) => current_count < max_files,
            Err(m) => current_count >= max_files && m@ == scan_limit_message(max_files as nat),
        },
{
    if current_count >= max_files {
        let d = decimal_string(max_files as u64);
        return Err(concat3(
            "Scan exceeds the safety limit of ",
            d.as_str(),
            " supported files. Select fewer files or a smaller directory.",
        ));
    }
    Ok(())
}

/// The supported media files among `paths`, in order.
pub open spec fn media_files(paths: Seq<Seq<char>>) -> Seq<Seq<char>>
    decreases paths.len(),
{
    if paths.len() == 0 {
        Seq::empty()
    } else if media_extension(paths.last()) is Some {
        media_files(paths.drop_last()).push(paths.last())
    } else {
        media_files(paths.drop_last())
    }
}

proof fn lemma_media_files_grow(paths: Seq<Seq<char>>, i: int)
    requires
        0 <= i <= paths.len(),
    ensures
        media_files(paths.take(i)).len() <= media_files(paths).len(),
    decreases paths.len() - i,
{
    if i < paths.len() {
        lemma_media_files_grow(paths, i + 1);
        assert(paths.take(i + 1).drop_last() =~= paths.take(i));
    } else {
        assert(paths.take(i) =~= paths);
    }
}

/// Scans the candidate files in order and describes the supported media
/// files among them, failing as soon as there are more than `max_files`.
pub fn scan_files_with_limit<F: Fn(&str) -> (Option<DateTimeFields>, DateSource)>(
    candidates: &Vec<String>,
    max_files: usize,
    read_date: &F,
) -> (r: Result<Vec<FileEntry>, String>)
    requires
        forall|s: &str| #[trigger] read_date.requires((s,)),
    ensures
        ({
            let media = media_files(candidates@.map_values(|s: String| s@));
            match r {
                Ok(es) => media.len() <= max_files && es@.len() == media.len() && forall|i: int|
                    0 <= i < es@.len() ==> describes(*read_date, #[trigger] es@[i], media[i]),
                Err(m) => media.len() > max_files && m@ == scan_limit_message(max_files as nat),
            }
        }),
{
    let ghost views = candidates@.map_values(|s: String| s@);
    let mut entries: Vec<FileEntry> = Vec::new();
    let mut k: usize = 0;
    while k < candidates.len()
        invariant
            k <= candidates@.len(),
            views == candidates@.map_values(|s: String| s@),
            forall|s: &str| #[trigger] read_date.requires((s,)),
            entries@.len() == media_files(views.take(k as int)).len(),
            entries@.len() <= max_files,
            forall|i: int|
                0 <= i < entries@.len() ==> describes(
                    *read_date,
                    #[trigger] entries@[i],
                    media_files(views.take(k as int))[i],
                ),
        decreases candidates.len() - k,
    {
        proof {
            assert(views.take(k + 1).drop_last() =~= views.take(k as int));
            assert(views.take(k + 1).last() == candidates@[k as int]@);
        }
        match scan_single_file(candidates[k].as_str(), read_date) {
            Some(e) => {
                match ensure_scan_capacity(entries.len(), max_files) {
                    Ok(()) => {},
                    Err(m) => {
                        proof {
                            lemma_media_files_grow(views, k + 1);
                        }
                        return Err(m);
                    },
                }
                entries.push(e);
            },
            None => {},
        }
        k = k + 1;
    }
    assert(views.take(candidates@.len() as int) =~= views);
    Ok(entries)
}

/// `scan_files_with_limit` with the standard limit.
pub fn scan_files<F: Fn(&str) -> (Option<DateTimeFields>, DateSource)>(
    candidates: &Vec<String>,
    read_date: &F,
) -> (r: Result<Vec<FileEntry>, String>)
    requires
        forall|s: &str| #[trigger] read_date.requires((s,)),
    ensures
        ({
            let media = media_files(candidates@.map_values(|s: String| s@));
            match r {
                Ok(es) => media.len() <= MAX_SCAN_FILES && es@.len() == media.len() && forall|i: int|
                    0 <= i < es@.len() ==> describes(*read_date, #[trigger] es@[i], media[i]),
                Err(m) => media.len() > MAX_SCAN_FILES && m@ == scan_limit_message(MAX_SCAN_FILES as nat),
            }
        }),
{
    scan_files_with_limit(candidates, MAX_SCAN_FILES, read_date)
}

/// The media types the renamer supports, as its documentation lists them.
pub open spec fn documented_media_types() -> Set<Seq<char>> {
    set!["jpg"@, "jpeg"@, "png"@, "heic"@, "heif"@, "tiff"@, "tif"@, "webp"@, "gif"@, "bmp"@, "mp4"@, "mov"@,
        "avi"@, "mkv"@]
}

/// Law: the supported extensions are exactly the documented media types,
/// and a scan reports a file only with one of them as its extension; any
/// other file (a `.json` sidecar, a `.txt`) is never reported.
pub proof fn law_only_documented_media_types_are_scanned(ext: Seq<char>, path: Seq<char>)
    ensures
        spec_is_supported_extension(ext) <==> documented_media_types().contains(ext),
        media_extension(path) matches Some(x) ==> documented_media_types().contains(x),
        spec_is_heic_extension(ext) <==> set!["heic"@, "heif"@].contains(ext),
{
    assert(spec_is_supported_extension(ext) <==> documented_media_types().contains(ext));
    if let Some(x) = media_extension(path) {
        assert(spec_is_supported_extension(x));
    }
}

} // verus!
