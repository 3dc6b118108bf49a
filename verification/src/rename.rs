//! The decisions of a rename run. The run is a state machine: it tells the
//! caller which file-system step to take next (report progress, resolve a
//! name collision, convert, remove, rename, shift timestamps, save the undo
//! log) and is told the outcome, until it hands back the run's result.

use vstd::prelude::*;

use crate::backup::parent_text;
use crate::conflict::{
    candidate, in_same_directory, plain_file_target, reported, resolve_conflict, resolves,
    result_view,
};
use crate::models::{
    file_entries_view, opt_view, rename_errors_view, strings_view, undo_entries_view, FileEntry,
    FileEntryView, RenameErrorEntry, RenameErrorView, RenameResult, UndoEntry, UndoEntryView,
    HEIC_JPEG_QUALITY, MAX_COLLISION_SUFFIX,
};
use crate::offset::{offset_target, timestamp_offset_action};
use crate::path::{
    lemma_name_with_extension_plain, name_with_extension, plain_name, spec_file_name,
    spec_is_normal_absolute_file_path, spec_parent, Part,
    has_no_separator, parts_prefix_equal, parts_view, path_join, path_parent, path_parts,
    path_with_extension, std_path_components, std_path_join, std_path_with_extension,
};
use crate::text::{concat2, concat3, str_equal};
use crate::undo::{
    current_entry, spec_is_safe_undo_pair, undo_next, UndoActionView, UndoEventView, UndoRunView,
    UndoStage,
};

verus! {

/// Where a rename run stands; the entry being handled is `entries[index]`.
#[derive(Clone, Copy)]
pub enum RenameStage {
    Progress,
    AwaitInPlaceOffset,
    AwaitResolve,
    AwaitConvert,
    AwaitRemoveOriginal,
    AwaitFallbackResolve,
    AwaitFallbackRename,
    AwaitRename,
    AwaitMovedOffset,
    AwaitSave,
    Done,
}

/// What the caller reports after performing the last action.
pub enum RenameEvent {
    /// The action completed; its outcome, where it has one.
    Completed(Result<(), String>),
    /// The outcome of a `ResolveConflict` action.
    Resolved(Result<String, String>),
}

/// The next step a rename run asks for.
pub enum RenameAction {
    EmitProgress { current: usize, total: usize, filename: String },
    ResolveConflict(String),
    ConvertHeic { from: String, to: String, quality: u8 },
    RemoveFile(String),
    RenameFile { from: String, to: String },
    ApplyOffset { path: String, timestamp: i64, write_exif: bool },
    SaveUndoLog(Vec<UndoEntry>),
    Finished(RenameResult),
}

/// The state of a rename run.
pub struct RenameRun {
    entries: Vec<FileEntry>,
    new_names: Vec<String>,
    offset_seconds: i64,
    convert_heic: bool,
    has_exiftool: bool,
    backups: Vec<(String, String)>,
    index: usize,
    stage: RenameStage,
    target: String,
    convert_error: String,
    converted: bool,
    success: usize,
    errors: Vec<RenameErrorEntry>,
    undo: Vec<UndoEntry>,
    targets: Vec<String>,
}

/// Mathematical value of a `RenameRun`.
pub struct RenameRunView {
    pub entries: Seq<FileEntryView>,
    pub new_names: Seq<Seq<char>>,
    pub offset_seconds: int,
    pub convert_heic: bool,
    pub has_exiftool: bool,
    pub backups: Seq<(Seq<char>, Seq<char>)>,
    pub index: nat,
    pub stage: RenameStage,
    pub target: Seq<char>,
    pub convert_error: Seq<char>,
    pub converted: bool,
    pub success: nat,
    pub errors: Seq<RenameErrorView>,
    pub undo: Seq<UndoEntryView>,
}

/// Mathematical value of a `RenameEvent`.
pub enum RenameEventView {
    Completed(Result<(), Seq<char>>),
    Resolved(Result<Seq<char>, Seq<char>>),
}

/// Mathematical value of a `RenameAction`.
pub enum RenameActionView {
    EmitProgress(nat, nat, Seq<char>),
    ResolveConflict(Seq<char>),
    ConvertHeic(Seq<char>, Seq<char>, nat),
    RemoveFile(Seq<char>),
    RenameFile(Seq<char>, Seq<char>),
    ApplyOffset(Seq<char>, int, bool),
    SaveUndoLog(Seq<UndoEntryView>),
    Finished(nat, nat, Seq<RenameErrorView>),
}

/// Values of (source, backup) pairs.
pub open spec fn pairs_view(v: Seq<(String, String)>) -> Seq<(Seq<char>, Seq<char>)> {
    v.map_values(|p: (String, String)| (p.0@, p.1@))
}

impl View for RenameRun {
    type V = RenameRunView;

    closed spec fn view(&self) -> RenameRunView {
        RenameRunView {
            entries: file_entries_view(self.entries@),
            new_names: strings_view(self.new_names@),
            offset_seconds: self.offset_seconds as int,
            convert_heic: self.convert_heic,
            has_exiftool: self.has_exiftool,
            backups: pairs_view(self.backups@),
            index: self.index as nat,
            stage: self.stage,
            target: self.target@,
            convert_error: self.convert_error@,
            converted: self.converted,
            success: self.success as nat,
            errors: rename_errors_view(self.errors@),
            undo: undo_entries_view(self.undo@),
        }
    }
}

impl View for RenameEvent {
    type V = RenameEventView;

    open spec fn view(&self) -> RenameEventView {
        match self {
            RenameEvent::Completed(Ok(())) => RenameEventView::Completed(Ok(())),
            RenameEvent::Completed(Err(e)) => RenameEventView::Completed(Err(e@)),
            RenameEvent::Resolved(Ok(p)) => RenameEventView::Resolved(Ok(p@)),
            RenameEvent::Resolved(Err(e)) => RenameEventView::Resolved(Err(e@)),
        }
    }
}

impl View for RenameAction {
    type V = RenameActionView;

    open spec fn view(&self) -> RenameActionView {
        match self {
            RenameAction::EmitProgress { current, total, filename } => RenameActionView::EmitProgress(
                *current as nat,
                *total as nat,
                filename@,
            ),
            RenameAction::ResolveConflict(p) => RenameActionView::ResolveConflict(p@),
            RenameAction::ConvertHeic { from, to, quality } => RenameActionView::ConvertHeic(from@, to@, *quality as nat),
            RenameAction::RemoveFile(p) => RenameActionView::RemoveFile(p@),
            RenameAction::RenameFile { from, to } => RenameActionView::RenameFile(from@, to@),
            RenameAction::ApplyOffset { path, timestamp, write_exif } => RenameActionView::ApplyOffset(
                path@,
                *timestamp as int,
                *write_exif,
            ),
            RenameAction::SaveUndoLog(v) => RenameActionView::SaveUndoLog(undo_entries_view(v@)),
            RenameAction::Finished(r) => RenameActionView::Finished(
                r.success_count as nat,
                r.error_count as nat,
                rename_errors_view(r.errors@),
            ),
        }
    }
}

/// The backup recorded for `path`: the last pair whose source is `path`.
pub open spec fn backup_lookup(backups: Seq<(Seq<char>, Seq<char>)>, path: Seq<char>) -> Option<Seq<char>>
    decreases backups.len(),
{
    if backups.len() == 0 {
        None
    } else if backups.last().0 == path {
        Some(backups.last().1)
    } else {
        backup_lookup(backups.drop_last(), path)
    }
}

/// Number of files a run handles: entries that have a new name.
pub open spec fn run_len(s: RenameRunView) -> nat {
    if s.entries.len() <= s.new_names.len() {
        s.entries.len()
    } else {
        s.new_names.len()
    }
}

/// The entry being handled.
pub open spec fn cur(s: RenameRunView) -> FileEntryView {
    s.entries[s.index as int]
}

/// The requested new path of the current entry: its new name in its directory.
pub open spec fn requested_path(s: RenameRunView) -> Seq<char> {
    requested_at(s, s.index as int)
}

/// The requested new path of entry `j`: its new name in its directory.
pub open spec fn requested_at(s: RenameRunView, j: int) -> Seq<char> {
    std_path_join(parent_text(s.entries[j].path), s.new_names[j])
}

/// Entry `j` has a normal absolute path and a plain new name.
pub open spec fn in_place_at(s: RenameRunView, j: int) -> bool {
    &&& spec_is_normal_absolute_file_path(s.entries[j].path)
    &&& plain_name(s.new_names[j])
}

/// For each entry with a normal absolute path and a plain new name, the
/// requested path is a file next to it with that name (std's `Path::join`
/// and `Path::parent` as the library's wrappers state them).
pub open spec fn targets_in_place(s: RenameRunView) -> bool {
    names_in_place(s.entries, s.new_names)
}

/// See `targets_in_place`.
pub open spec fn names_in_place(entries: Seq<FileEntryView>, new_names: Seq<Seq<char>>) -> bool {
    forall|j: int|
        0 <= j < entries.len() && j < new_names.len() && spec_is_normal_absolute_file_path(entries[j].path)
            && plain_name(#[trigger] new_names[j]) ==> plain_file_target(
            std_path_join(parent_text(entries[j].path), new_names[j]),
        ) && in_same_directory(entries[j].path, std_path_join(parent_text(entries[j].path), new_names[j]))
}

/// The current file has a normal absolute path and its new name is a plain
/// file name, so its requested path lies next to it.
pub open spec fn requests_in_place(s: RenameRunView) -> bool {
    in_place_at(s, s.index as int)
}

/// The error record for the current entry.
pub open spec fn error_for(s: RenameRunView, reason: Seq<char>) -> RenameErrorView {
    RenameErrorView { filename: cur(s).filename, reason: reason }
}

/// Starts on entry `s.index`, or on saving the undo log when all are handled.
pub open spec fn start_entry(s: RenameRunView) -> (RenameRunView, RenameActionView) {
    if s.index < run_len(s) {
        (
            RenameRunView { stage: RenameStage::Progress, ..s },
            RenameActionView::EmitProgress(s.index + 1, s.entries.len(), cur(s).filename),
        )
    } else {
        (RenameRunView { stage: RenameStage::AwaitSave, ..s }, RenameActionView::SaveUndoLog(s.undo))
    }
}

/// Moves on to the next entry.
pub open spec fn next_entry(s: RenameRunView) -> (RenameRunView, RenameActionView) {
    start_entry(RenameRunView { index: s.index + 1, ..s })
}

/// Gives up the current entry with an error.
pub open spec fn fail_entry(s: RenameRunView, reason: Seq<char>) -> (RenameRunView, RenameActionView) {
    next_entry(RenameRunView { errors: s.errors.push(error_for(s, reason)), ..s })
}

/// Counts the current entry as renamed to `s.target` and records how to undo it.
pub open spec fn record_move(s: RenameRunView) -> (RenameRunView, RenameActionView) {
    next_entry(
        RenameRunView {
            undo: s.undo.push(
                UndoEntryView {
                    original_path: cur(s).path,
                    new_path: s.target,
                    was_heic_conversion: s.converted,
                    backup_original_path: backup_lookup(s.backups, cur(s).path),
                },
            ),
            success: s.success + 1,
            ..s
        },
    )
}

/// After the file now lives at `s.target`: shift its timestamps if asked,
/// then record the move.
pub open spec fn finish_moved(s: RenameRunView) -> (RenameRunView, RenameActionView) {
    match offset_target(cur(s).datetime, s.offset_seconds) {
        Some(t) => (
            RenameRunView { stage: RenameStage::AwaitMovedOffset, ..s },
            RenameActionView::ApplyOffset(s.target, t, s.has_exiftool),
        ),
        None => record_move(s),
    }
}

/// Handles the current entry once its progress has been reported.
pub open spec fn evaluate_entry(s: RenameRunView) -> (RenameRunView, RenameActionView) {
    let e = cur(s);
    if !e.has_date {
        fail_entry(s, "No date available, skipped"@)
    } else if std_path_components(e.path) == std_path_components(requested_path(s)) {
        match offset_target(e.datetime, s.offset_seconds) {
            Some(t) => (
                RenameRunView { stage: RenameStage::AwaitInPlaceOffset, ..s },
                RenameActionView::ApplyOffset(e.path, t, s.has_exiftool),
            ),
            None => next_entry(RenameRunView { success: s.success + 1, ..s }),
        }
    } else {
        (
            RenameRunView { stage: RenameStage::AwaitResolve, ..s },
            RenameActionView::ResolveConflict(requested_path(s)),
        )
    }
}

/// The action a run in state `s` is waiting on.
pub open spec fn rename_pending(s: RenameRunView) -> RenameActionView {
    let e = cur(s);
    match s.stage {
        RenameStage::Progress => RenameActionView::EmitProgress(s.index + 1, s.entries.len(), e.filename),
        RenameStage::AwaitInPlaceOffset => RenameActionView::ApplyOffset(
            e.path,
            offset_target(e.datetime, s.offset_seconds)->0,
            s.has_exiftool,
        ),
        RenameStage::AwaitResolve => RenameActionView::ResolveConflict(requested_path(s)),
        RenameStage::AwaitConvert => RenameActionView::ConvertHeic(e.path, s.target, HEIC_JPEG_QUALITY as nat),
        RenameStage::AwaitRemoveOriginal => RenameActionView::RemoveFile(e.path),
        RenameStage::AwaitFallbackResolve => RenameActionView::ResolveConflict(
            std_path_with_extension(s.target, e.extension),
        ),
        RenameStage::AwaitFallbackRename => RenameActionView::RenameFile(e.path, s.target),
        RenameStage::AwaitRename => RenameActionView::RenameFile(e.path, s.target),
        RenameStage::AwaitMovedOffset => RenameActionView::ApplyOffset(
            s.target,
            offset_target(e.datetime, s.offset_seconds)->0,
            s.has_exiftool,
        ),
        RenameStage::AwaitSave => RenameActionView::SaveUndoLog(s.undo),
        RenameStage::Done => RenameActionView::Finished(s.success, s.errors.len(), s.errors),
    }
}

/// One step of a rename run: the new state and the next action, given the
/// outcome of the previous action. An event that does not answer the pending
/// action leaves the run unchanged and repeats that action.
pub open spec fn rename_next(s: RenameRunView, ev: RenameEventView) -> (RenameRunView, RenameActionView) {
    let e = cur(s);
    let unchanged = (s, rename_pending(s));
    match s.stage {
        RenameStage::Progress => match ev {
            RenameEventView::Completed(_) => evaluate_entry(s),
            _ => unchanged,
        },
        RenameStage::AwaitInPlaceOffset => match ev {
            RenameEventView::Completed(_) => next_entry(RenameRunView { success: s.success + 1, ..s }),
            _ => unchanged,
        },
        RenameStage::AwaitResolve => match ev {
            RenameEventView::Resolved(Err(reason)) => fail_entry(s, reason),
            RenameEventView::Resolved(Ok(f)) => if e.is_heic && s.convert_heic {
                (
                    RenameRunView { stage: RenameStage::AwaitConvert, target: f, ..s },
                    RenameActionView::ConvertHeic(e.path, f, HEIC_JPEG_QUALITY as nat),
                )
            } else {
                (
                    RenameRunView { stage: RenameStage::AwaitRename, target: f, ..s },
                    RenameActionView::RenameFile(e.path, f),
                )
            },
            _ => unchanged,
        },
        RenameStage::AwaitConvert => match ev {
            RenameEventView::Completed(Ok(())) => (
                RenameRunView { stage: RenameStage::AwaitRemoveOriginal, ..s },
                RenameActionView::RemoveFile(e.path),
            ),
            RenameEventView::Completed(Err(x)) => (
                RenameRunView { stage: RenameStage::AwaitFallbackResolve, convert_error: x, ..s },
                RenameActionView::ResolveConflict(std_path_with_extension(s.target, e.extension)),
            ),
            _ => unchanged,
        },
        RenameStage::AwaitRemoveOriginal => match ev {
            RenameEventView::Completed(Ok(())) => finish_moved(RenameRunView { converted: true, ..s }),
            RenameEventView::Completed(Err(x)) => finish_moved(
                RenameRunView {
                    converted: true,
                    errors: s.errors.push(
                        error_for(s, "Conversion succeeded but failed to remove original: "@ + x),
                    ),
                    ..s
                },
            ),
            _ => unchanged,
        },
        RenameStage::AwaitFallbackResolve => match ev {
            RenameEventView::Resolved(Err(c)) => fail_entry(
                s,
                "HEIC->JPG failed: "@ + s.convert_error + "; "@ + c,
            ),
            RenameEventView::Resolved(Ok(fb)) => (
                RenameRunView { stage: RenameStage::AwaitFallbackRename, target: fb, ..s },
                RenameActionView::RenameFile(e.path, fb),
            ),
            _ => unchanged,
        },
        RenameStage::AwaitFallbackRename => match ev {
            RenameEventView::Completed(Ok(())) => finish_moved(
                RenameRunView {
                    converted: false,
                    errors: s.errors.push(
                        error_for(
                            s,
                            "HEIC\u{2192}JPG failed: "@ + s.convert_error + ", renamed without conversion"@,
                        ),
                    ),
                    ..s
                },
            ),
            RenameEventView::Completed(Err(x)) => fail_entry(
                s,
                s.convert_error + ", rename also failed: "@ + x,
            ),
            _ => unchanged,
        },
        RenameStage::AwaitRename => match ev {
            RenameEventView::Completed(Ok(())) => finish_moved(RenameRunView { converted: false, ..s }),
            RenameEventView::Completed(Err(x)) => fail_entry(s, x),
            _ => unchanged,
        },
        RenameStage::AwaitMovedOffset => match ev {
            RenameEventView::Completed(_) => record_move(s),
            _ => unchanged,
        },
        RenameStage::AwaitSave => match ev {
            RenameEventView::Completed(_) => (
                RenameRunView { stage: RenameStage::Done, ..s },
                RenameActionView::Finished(s.success, s.errors.len(), s.errors),
            ),
            _ => unchanged,
        },
        RenameStage::Done => unchanged,
    }
}

/// The fallback after a failed HEIC conversion keeps the file's own
/// extension, and std's `with_extension` panics on an extension holding a
/// path separator: a failed conversion may be reported only for a file whose
/// extension has none (the caller checks `fallback_extension_is_usable`).
pub open spec fn fallback_is_possible(s: RenameRunView, ev: RenameEventView) -> bool {
    (s.stage is AwaitConvert && ev matches RenameEventView::Completed(Err(_))) ==> has_no_separator(cur(s).extension)
}

/// The fallback path after a failed conversion lies next to the converted
/// target (what `RenameRun` ensures of the fallback it asks to resolve).
pub open spec fn fallback_request_in_place(s: RenameRunView) -> bool {
    s.stage is AwaitFallbackResolve && plain_file_target(s.target) && plain_name(cur(s).extension)
        ==> plain_file_target(std_path_with_extension(s.target, cur(s).extension)) && in_same_directory(
        s.target,
        std_path_with_extension(s.target, cur(s).extension),
    )
}

/// Well-formed run states.
pub open spec fn rename_wf(s: RenameRunView) -> bool {
    &&& rename_wf_core(s)
    &&& targets_in_place(s)
    &&& s.errors.len() <= s.index + (if s.stage is AwaitMovedOffset { 1int } else { 0int })
}

/// The part of `rename_wf` that does not bound the errors: at most one error
/// is recorded per file handled (the current one included once it is moved).
pub open spec fn rename_wf_core(s: RenameRunView) -> bool {
    &&& s.index <= run_len(s)
    &&& (s.stage is AwaitSave || s.stage is Done) <==> s.index == run_len(s)
    &&& s.success <= s.index
    &&& s.undo.len() <= s.success
    &&& s.index - s.success <= s.errors.len()
    &&& s.stage is AwaitFallbackResolve ==> has_no_separator(cur(s).extension)
    &&& (s.stage is AwaitInPlaceOffset || s.stage is AwaitMovedOffset) ==> offset_target(
        cur(s).datetime,
        s.offset_seconds,
    ) is Some
    &&& (s.stage is AwaitConvert || s.stage is AwaitRemoveOriginal || s.stage is AwaitFallbackResolve)
        ==> cur(s).is_heic && s.convert_heic
}

fn clone_undo_entry(e: &UndoEntry) -> (r: UndoEntry)
    ensures
        r@ == e@,
{
    UndoEntry {
        original_path: e.original_path.clone(),
        new_path: e.new_path.clone(),
        was_heic_conversion: e.was_heic_conversion,
        backup_original_path: match &e.backup_original_path {
            Some(b) => Some(b.clone()),
            None => None,
        },
    }
}

fn clone_undo_entries(v: &Vec<UndoEntry>) -> (r: Vec<UndoEntry>)
    ensures
        undo_entries_view(r@) == undo_entries_view(v@),
{
    let mut r: Vec<UndoEntry> = Vec::new();
    let mut i: usize = 0;
    while i < v.len()
        invariant
            i <= v@.len(),
            r@.len() == i,
            forall|j: int| 0 <= j < i ==> #[trigger] r@[j]@ == v@[j]@,
        decreases v.len() - i,
    {
        r.push(clone_undo_entry(&v[i]));
        i = i + 1;
    }
    assert(undo_entries_view(r@) =~= undo_entries_view(v@));
    r
}

fn clone_errors(v: &Vec<RenameErrorEntry>) -> (r: Vec<RenameErrorEntry>)
    ensures
        rename_errors_view(r@) == rename_errors_view(v@),
{
    let mut r: Vec<RenameErrorEntry> = Vec::new();
    let mut i: usize = 0;
    while i < v.len()
        invariant
            i <= v@.len(),
            r@.len() == i,
            forall|j: int| 0 <= j < i ==> #[trigger] r@[j]@ == v@[j]@,
        decreases v.len() - i,
    {
        r.push(RenameErrorEntry { filename: v[i].filename.clone(), reason: v[i].reason.clone() });
        i = i + 1;
    }
    assert(rename_errors_view(r@) =~= rename_errors_view(v@));
    r
}

/// The last backup recorded for `path`.
fn find_backup(backups: &Vec<(String, String)>, path: &str) -> (r: Option<String>)
    ensures
        opt_view(r) == backup_lookup(pairs_view(backups@), path@),
{
    let mut i: usize = backups.len();
    proof {
        assert(pairs_view(backups@).take(i as int) =~= pairs_view(backups@));
    }
    while i > 0
        invariant
            i <= backups@.len(),
            backup_lookup(pairs_view(backups@).take(i as int), path@) == backup_lookup(pairs_view(backups@), path@),
        decreases i,
    {
        let ghost pre = pairs_view(backups@).take(i as int);
        assert(pre.last() == (backups@[i - 1].0@, backups@[i - 1].1@));
        if str_equal(backups[i - 1].0.as_str(), path) {
            return Some(backups[i - 1].1.clone());
        }
        assert(pre.drop_last() =~= pairs_view(backups@).take(i - 1));
        i = i - 1;
    }
    None
}

/// The requested new path of the file at `path` renamed to `name`: `name`
/// joined to the file's parent directory (or to `.`). For a normal absolute
/// path and a plain name it is a file next to the original.
fn requested_path_of(path: &str, name: &str) -> (r: String)
    ensures
    r@ == std_path_join(parent_text(path@), name@),
    spec_is_normal_absolute_file_path(path@) && plain_name(name@) ==> plain_file_target(r@)
        && in_same_directory(path@, r@),
{
    let parent = match path_parent(path) {
        Some(p) => p,
        None => {
            proof {
                reveal_strlit(".");
            }
            String::from_str(".")
        },
    };
    let r = path_join(parent.as_str(), name);
    proof {
        if spec_is_normal_absolute_file_path(path@) && plain_name(name@) {
            let pp = std_path_components(path@);
            let rp = std_path_components(r@);
            assert(spec_parent(pp) == Some(pp.drop_last()));
            assert(rp == pp.drop_last().push(Part::Normal(name@)));
            assert forall|k: int| 0 <= k < rp.len() implies !(#[trigger] rp[k] is Cur) && !(rp[k] is Parent) by {
                if k < pp.len() - 1 {
                    assert(rp[k] == pp[k]);
                }
            }
            assert(rp.drop_last() =~= pp.drop_last());
            assert(spec_parent(rp) == Some(rp.drop_last()));
        }
    }
    r
}

impl RenameRun {
    /// Well-formedness of the run's state.
    pub closed spec fn wf(&self) -> bool {
        &&& rename_wf(self@)
        &&& self.lengths_match()
        &&& fallback_request_in_place(self@)
    }

    /// The view's sequences match the fields they come from, and the
    /// requested paths are computed for every entry.
    closed spec fn lengths_match(&self) -> bool {
        &&& self@.entries.len() == self.entries@.len()
        &&& self@.new_names.len() == self.new_names@.len()
        &&& self@.errors.len() == self.errors@.len()
        &&& self@.undo.len() == self.undo@.len()
        &&& self.targets@.len() == run_len(self@)
        &&& forall|j: int| 0 <= j < run_len(self@) ==> #[trigger] self.targets@[j]@ == requested_at(self@, j)
    }

    /// A run renaming `entries[i]` to `new_names[i]` (for the entries that
    /// have a new name), shifting timestamps by `offset_seconds`, converting
    /// HEIC files when `convert_heic`, writing EXIF dates when
    /// `has_exiftool`, and recording the backup made of each file in
    /// `backups` (source, copy). The first action is returned with it.
    pub fn new(
        entries: Vec<FileEntry>,
        new_names: Vec<String>,
        offset_seconds: i64,
        convert_heic: bool,
        has_exiftool: bool,
        backups: Vec<(String, String)>,
    ) -> (r: (RenameRun, RenameAction))
        ensures
            r.0.wf(),
            rename_wf(r.0@),
            targets_in_place(r.0@),
            (r.0@, r.1@) == start_entry(
                RenameRunView {
                    entries: file_entries_view(entries@),
                    new_names: strings_view(new_names@),
                    offset_seconds: offset_seconds as int,
                    convert_heic,
                    has_exiftool,
                    backups: pairs_view(backups@),
                    index: 0,
                    stage: RenameStage::Progress,
                    target: Seq::empty(),
                    convert_error: Seq::empty(),
                    converted: false,
                    success: 0,
                    errors: Seq::empty(),
                    undo: Seq::empty(),
                },
            ),
    {
        let n: usize = if entries.len() <= new_names.len() { entries.len() } else { new_names.len() };
        let mut targets: Vec<String> = Vec::new();
        let mut j: usize = 0;
        while j < n
            invariant
                j <= n,
                n <= entries@.len(),
                n <= new_names@.len(),
                targets@.len() == j,
                forall|k: int| 0 <= k < j ==> {
                    let t = #[trigger] targets@[k]@;
                    let p = entries@[k].path@;
                    let nm = new_names@[k]@;
                    &&& t == std_path_join(parent_text(p), nm)
                    &&& spec_is_normal_absolute_file_path(p) && plain_name(nm) ==> plain_file_target(t)
                        && in_same_directory(p, t)
                },
            decreases n - j,
        {
            let t = requested_path_of(entries[j].path.as_str(), new_names[j].as_str());
            targets.push(t);
            j = j + 1;
        }
        let mut run = RenameRun {
            entries,
            new_names,
            offset_seconds,
            convert_heic,
            has_exiftool,
            backups,
            index: 0,
            stage: RenameStage::Progress,
            target: String::new(),
            convert_error: String::new(),
            converted: false,
            success: 0,
            errors: Vec::new(),
            undo: Vec::new(),
            targets,
        };
        proof {
            assert forall|k: int| 0 <= k < run_len(run@) implies #[trigger] run.targets@[k]@ == requested_at(run@, k) by {
                assert(run@.entries[k].path == run.entries@[k].path@);
                assert(run@.new_names[k] == run.new_names@[k]@);
            }
            let es = run@.entries;
            let ns = run@.new_names;
            assert forall|k: int|
                0 <= k < es.len() && k < ns.len() && spec_is_normal_absolute_file_path(es[k].path) && plain_name(
                    #[trigger] ns[k],
                ) implies plain_file_target(std_path_join(parent_text(es[k].path), ns[k])) && in_same_directory(
                es[k].path,
                std_path_join(parent_text(es[k].path), ns[k]),
            ) by {
                assert(es[k].path == run.entries@[k].path@);
                assert(ns[k] == run.new_names@[k]@);
                assert(k < n);
                assert(run.targets@[k]@ == std_path_join(parent_text(es[k].path), ns[k]));
            }
            assert(targets_in_place(run@));
        }
        assert(rename_errors_view(run.errors@) =~= Seq::empty());
        assert(undo_entries_view(run.undo@) =~= Seq::empty());
        let a = run.start_entry();
        (run, a)
    }

    fn count(&self) -> (n: usize)
        ensures
            n == run_len(self@),
    {
        if self.entries.len() <= self.new_names.len() {
            self.entries.len()
        } else {
            self.new_names.len()
        }
    }

    fn start_entry(&mut self) -> (a: RenameAction)
        requires
            old(self).index <= run_len(old(self)@),
            old(self)@.entries.len() == old(self).entries@.len(),
            old(self)@.new_names.len() == old(self).new_names@.len(),
        ensures
            (final(self)@, a@) == start_entry(old(self)@),
            final(self).entries@ == old(self).entries@,
            final(self).new_names@ == old(self).new_names@,
            final(self).errors@ == old(self).errors@,
            final(self).undo@ == old(self).undo@,
            final(self).targets@ == old(self).targets@,
    {
        if self.index < self.count() {
            self.stage = RenameStage::Progress;
            let filename = self.entries[self.index].filename.clone();
            RenameAction::EmitProgress { current: self.index + 1, total: self.entries.len(), filename }
        } else {
            self.stage = RenameStage::AwaitSave;
            RenameAction::SaveUndoLog(clone_undo_entries(&self.undo))
        }
    }

    fn next_entry(&mut self) -> (a: RenameAction)
        requires
            old(self).index < run_len(old(self)@),
            old(self)@.entries.len() == old(self).entries@.len(),
            old(self)@.new_names.len() == old(self).new_names@.len(),
        ensures
            (final(self)@, a@) == next_entry(old(self)@),
            final(self).entries@ == old(self).entries@,
            final(self).new_names@ == old(self).new_names@,
            final(self).errors@ == old(self).errors@,
            final(self).undo@ == old(self).undo@,
            final(self).targets@ == old(self).targets@,
    {
        let n = self.count();
        assert(self.index + 1 <= n);
        self.index = self.index + 1;
        self.start_entry()
    }

    fn fail_entry(&mut self, reason: String) -> (a: RenameAction)
        requires
            old(self).index < run_len(old(self)@),
            old(self)@.entries.len() == old(self).entries@.len(),
            old(self)@.new_names.len() == old(self).new_names@.len(),
            old(self)@.errors.len() == old(self).errors@.len(),
        ensures
            (final(self)@, a@) == fail_entry(old(self)@, reason@),
            final(self).entries@ == old(self).entries@,
            final(self).new_names@ == old(self).new_names@,
            final(self).errors@.len() == old(self).errors@.len() + 1,
            final(self).undo@ == old(self).undo@,
            final(self).targets@ == old(self).targets@,
    {
        let filename = self.entries[self.index].filename.clone();
        let err = RenameErrorEntry { filename, reason };
        let ghost before = self.errors@;
        self.errors.push(err);
        assert(rename_errors_view(self.errors@) =~= rename_errors_view(before).push(err@));
        self.next_entry()
    }

    fn push_error(&mut self, reason: String)
        requires
            old(self).index < run_len(old(self)@),
            old(self)@.entries.len() == old(self).entries@.len(),
        ensures
            final(self)@ == (RenameRunView {
                errors: old(self)@.errors.push(error_for(old(self)@, reason@)),
                ..old(self)@
            }),
            final(self).entries@ == old(self).entries@,
            final(self).new_names@ == old(self).new_names@,
            final(self).errors@.len() == old(self).errors@.len() + 1,
            final(self).undo@ == old(self).undo@,
            final(self).targets@ == old(self).targets@,
    {
        let filename = self.entries[self.index].filename.clone();
        let err = RenameErrorEntry { filename, reason };
        let ghost before = self.errors@;
        self.errors.push(err);
        assert(rename_errors_view(self.errors@) =~= rename_errors_view(before).push(err@));
    }

    fn requested_path(&self) -> (r: String)
        requires
            self.index < run_len(self@),
            rename_wf_core(self@) && targets_in_place(self@),
            self.lengths_match(),
        ensures
            r@ == requested_path(self@),
            requests_in_place(self@) ==> plain_file_target(r@) && in_same_directory(cur(self@).path, r@),
    {
        self.targets[self.index].clone()
    }

    fn record_move(&mut self) -> (a: RenameAction)
        requires
            rename_wf_core(old(self)@),
            old(self).lengths_match(),
            old(self)@.errors.len() <= old(self)@.index + 1,
            old(self).index < run_len(old(self)@),
        ensures
            (final(self)@, a@) == record_move(old(self)@),
            final(self).entries@ == old(self).entries@,
            final(self).new_names@ == old(self).new_names@,
            final(self).errors@ == old(self).errors@,
            final(self).undo@.len() == old(self).undo@.len() + 1,
            final(self).targets@ == old(self).targets@,
    {
        let path = self.entries[self.index].path.as_str();
        let backup = find_backup(&self.backups, path);
        let u = UndoEntry {
            original_path: String::from_str(path),
            new_path: self.target.clone(),
            was_heic_conversion: self.converted,
            backup_original_path: backup,
        };
        let ghost before = self.undo@;
        self.undo.push(u);
        assert(undo_entries_view(self.undo@) =~= undo_entries_view(before).push(u@));
        let n = self.count();
        assert(self.success + 1 <= n);
        self.success = self.success + 1;
        self.next_entry()
    }

    fn finish_moved(&mut self) -> (a: RenameAction)
        requires
            rename_wf_core(old(self)@),
            old(self).lengths_match(),
            old(self)@.errors.len() <= old(self)@.index + 1,
            old(self).index < run_len(old(self)@),
        ensures
            (final(self)@, a@) == finish_moved(old(self)@),
            final(self).entries@ == old(self).entries@,
            final(self).new_names@ == old(self).new_names@,
            final(self).errors@ == old(self).errors@,
            final(self).undo@.len() <= old(self).undo@.len() + 1,
            final(self).targets@ == old(self).targets@,
    {
        let act = timestamp_offset_action(
            self.target.as_str(),
            &self.entries[self.index].datetime,
            self.offset_seconds,
            self.has_exiftool,
        );
        match act {
            Some(o) => {
                self.stage = RenameStage::AwaitMovedOffset;
                RenameAction::ApplyOffset { path: o.path, timestamp: o.timestamp, write_exif: o.write_exif }
            },
            None => self.record_move(),
        }
    }

    fn evaluate_entry(&mut self) -> (a: RenameAction)
        requires
            old(self).wf(),
            old(self).index < run_len(old(self)@),
        ensures
            (final(self)@, a@) == evaluate_entry(old(self)@),
            final(self).entries@ == old(self).entries@,
            final(self).new_names@ == old(self).new_names@,
            final(self).errors@.len() <= old(self).errors@.len() + 1,
            final(self).undo@ == old(self).undo@,
            final(self).targets@ == old(self).targets@,
    {
        if !self.entries[self.index].date_source.has_date() {
            let reason = String::from_str("No date available, skipped");
            proof {
                reveal_strlit("No date available, skipped");
            }
            return self.fail_entry(reason);
        }
        let requested = self.requested_path();
        let a = path_parts(self.entries[self.index].path.as_str());
        let b = path_parts(requested.as_str());
        proof {
            assert(parts_view(a@).subrange(0, a@.len() as int) =~= parts_view(a@));
            assert(parts_view(b@).subrange(0, b@.len() as int) =~= parts_view(b@));
        }
        if parts_prefix_equal(&a, a.len(), &b, b.len()) {
            let act = timestamp_offset_action(
                self.entries[self.index].path.as_str(),
                &self.entries[self.index].datetime,
                self.offset_seconds,
                self.has_exiftool,
            );
            match act {
                Some(o) => {
                    self.stage = RenameStage::AwaitInPlaceOffset;
                    RenameAction::ApplyOffset { path: o.path, timestamp: o.timestamp, write_exif: o.write_exif }
                },
                None => {
                    let n = self.count();
                    assert(self.success + 1 <= n);
                    self.success = self.success + 1;
                    self.next_entry()
                },
            }
        } else {
            self.stage = RenameStage::AwaitResolve;
            RenameAction::ResolveConflict(requested)
        }
    }

    fn fallback_target(&self) -> (r: String)
        requires
            rename_wf(self@),
            self.lengths_match(),
            self.index < run_len(self@),
            has_no_separator(cur(self@).extension),
        ensures
            r@ == std_path_with_extension(self@.target, cur(self@).extension),
            plain_file_target(self@.target) && plain_name(cur(self@).extension) ==> plain_file_target(r@)
                && in_same_directory(self@.target, r@),
    {
        assert(self@.entries[self.index as int] == cur(self@));
        let r = path_with_extension(self.target.as_str(), self.entries[self.index].extension.as_str());
        proof {
            let t = self@.target;
            let ext = cur(self@).extension;
            if plain_file_target(t) && plain_name(ext) {
                let tp = std_path_components(t);
                let nm = spec_file_name(tp)->0;
                lemma_name_with_extension_plain(nm, ext);
                let rp = std_path_components(r@);
                assert(rp == tp.drop_last().push(Part::Normal(name_with_extension(nm, ext))));
                assert forall|k: int| 0 <= k < rp.len() implies !(#[trigger] rp[k] is Cur) && !(rp[k] is Parent) by {
                    if k < tp.len() - 1 {
                        assert(rp[k] == tp[k]);
                    }
                }
                assert(rp.drop_last() =~= tp.drop_last());
                assert(spec_parent(rp) == Some(rp.drop_last()));
                assert(spec_parent(tp) == Some(tp.drop_last()));
                assert(spec_file_name(rp) == Some(name_with_extension(nm, ext)));
            }
        }
        r
    }

    fn pending(&self) -> (a: RenameAction)
        requires
            self.wf(),
        ensures
            a@ == rename_pending(self@),
            self@.stage is AwaitResolve && requests_in_place(self@) ==> plain_file_target(requested_path(self@))
                && in_same_directory(cur(self@).path, requested_path(self@)),
            self@.stage is AwaitFallbackResolve && plain_file_target(self@.target) && plain_name(cur(self@).extension)
                ==> plain_file_target(std_path_with_extension(self@.target, cur(self@).extension))
                && in_same_directory(self@.target, std_path_with_extension(self@.target, cur(self@).extension)),
    {
        match self.stage {
            RenameStage::AwaitSave => RenameAction::SaveUndoLog(clone_undo_entries(&self.undo)),
            RenameStage::Done => RenameAction::Finished(
                RenameResult {
                    success_count: self.success,
                    error_count: self.errors.len(),
                    errors: clone_errors(&self.errors),
                },
            ),
            RenameStage::Progress => RenameAction::EmitProgress {
                current: {
                    let n = self.count();
                    assert(self.index + 1 <= n);
                    self.index + 1
                },
                total: self.entries.len(),
                filename: self.entries[self.index].filename.clone(),
            },
            RenameStage::AwaitInPlaceOffset => {
                let act = timestamp_offset_action(
                    self.entries[self.index].path.as_str(),
                    &self.entries[self.index].datetime,
                    self.offset_seconds,
                    self.has_exiftool,
                );
                match act {
                    Some(o) => RenameAction::ApplyOffset { path: o.path, timestamp: o.timestamp, write_exif: o.write_exif },
                    None => vstd::pervasive::unreached(),
                }
            },
            RenameStage::AwaitResolve => RenameAction::ResolveConflict(self.requested_path()),
            RenameStage::AwaitConvert => RenameAction::ConvertHeic {
                from: self.entries[self.index].path.clone(),
                to: self.target.clone(),
                quality: HEIC_JPEG_QUALITY,
            },
            RenameStage::AwaitRemoveOriginal => RenameAction::RemoveFile(self.entries[self.index].path.clone()),
            RenameStage::AwaitFallbackResolve => RenameAction::ResolveConflict(self.fallback_target()),
            RenameStage::AwaitFallbackRename => RenameAction::RenameFile {
                from: self.entries[self.index].path.clone(),
                to: self.target.clone(),
            },
            RenameStage::AwaitRename => RenameAction::RenameFile {
                from: self.entries[self.index].path.clone(),
                to: self.target.clone(),
            },
            RenameStage::AwaitMovedOffset => {
                let act = timestamp_offset_action(
                    self.target.as_str(),
                    &self.entries[self.index].datetime,
                    self.offset_seconds,
                    self.has_exiftool,
                );
                match act {
                    Some(o) => RenameAction::ApplyOffset { path: o.path, timestamp: o.timestamp, write_exif: o.write_exif },
                    None => vstd::pervasive::unreached(),
                }
            },
        }
    }

    /// Whether a failed conversion of the current file can fall back to a plain
    /// rename (its extension holds no path separator); when it is false, the
    /// fallback would make std's `with_extension` panic.
    pub fn fallback_extension_is_usable(&self) -> (r: bool)
        requires
            self.wf(),
        ensures
            r == (self@.index < run_len(self@) && has_no_separator(cur(self@).extension)),
    {
        if self.index >= self.count() {
            return false;
        }
        let ext = self.entries[self.index].extension.as_str();
        assert(self@.entries[self.index as int] == cur(self@));
        assert(ext@ == cur(self@).extension);
        let n = ext.unicode_len();
        let mut i: usize = 0;
        while i < n
            invariant
                n == ext@.len(),
                i <= n,
                ext@ == cur(self@).extension,
                self.index < run_len(self@),
                forall|j: int| 0 <= j < i ==> ext@[j] != '/' && ext@[j] != '\\',
            decreases n - i,
        {
            let c = ext.get_char(i);
            if c == '/' || c == '\\' {
                assert(ext@[i as int] == c);
                return false;
            }
            i = i + 1;
        }
        assert(self@.entries[self.index as int] == cur(self@));
        true
    }

    fn on_progress(&mut self, event: RenameEvent) -> (a: RenameAction)
        requires
            old(self).wf(),
            old(self)@.stage is Progress,
        ensures
            final(self).wf(),
            (final(self)@, a@) == rename_next(old(self)@, event@),
    {
        match event {
            RenameEvent::Completed(_) => self.evaluate_entry(),
            _ => self.pending(),
        }
    }

    fn on_in_place_offset(&mut self, event: RenameEvent) -> (a: RenameAction)
        requires
            old(self).wf(),
            old(self)@.stage is AwaitInPlaceOffset,
        ensures
            final(self).wf(),
            (final(self)@, a@) == rename_next(old(self)@, event@),
    {
        match event {
            RenameEvent::Completed(_) => {
                let n = self.count();
                assert(self.success + 1 <= n);
                self.success = self.success + 1;
                self.next_entry()
            },
            _ => self.pending(),
        }
    }

    fn on_resolve(&mut self, event: RenameEvent) -> (a: RenameAction)
        requires
            old(self).wf(),
            old(self)@.stage is AwaitResolve,
        ensures
            final(self).wf(),
            (final(self)@, a@) == rename_next(old(self)@, event@),
    {
        match event {
            RenameEvent::Resolved(Err(reason)) => self.fail_entry(reason),
            RenameEvent::Resolved(Ok(f)) => {
                let from = self.entries[self.index].path.clone();
                let to = f.clone();
                self.target = f;
                if self.entries[self.index].is_heic && self.convert_heic {
                    self.stage = RenameStage::AwaitConvert;
                    RenameAction::ConvertHeic { from, to, quality: HEIC_JPEG_QUALITY }
                } else {
                    self.stage = RenameStage::AwaitRename;
                    RenameAction::RenameFile { from, to }
                }
            },
            _ => self.pending(),
        }
    }

    fn on_convert(&mut self, event: RenameEvent) -> (a: RenameAction)
        requires
            old(self).wf(),
            old(self)@.stage is AwaitConvert,
            event@ is Completed && event@->Completed_0 is Err ==> has_no_separator(cur(old(self)@).extension),
        ensures
            final(self).wf(),
            (final(self)@, a@) == rename_next(old(self)@, event@),
    {
        match event {
            RenameEvent::Completed(Ok(())) => {
                self.stage = RenameStage::AwaitRemoveOriginal;
                RenameAction::RemoveFile(self.entries[self.index].path.clone())
            },
            RenameEvent::Completed(Err(x)) => {
                self.convert_error = x;
                self.stage = RenameStage::AwaitFallbackResolve;
                RenameAction::ResolveConflict(self.fallback_target())
            },
            _ => self.pending(),
        }
    }

    fn on_remove_original(&mut self, event: RenameEvent) -> (a: RenameAction)
        requires
            old(self).wf(),
            old(self)@.stage is AwaitRemoveOriginal,
        ensures
            final(self).wf(),
            (final(self)@, a@) == rename_next(old(self)@, event@),
    {
        match event {
            RenameEvent::Completed(Ok(())) => {
                self.converted = true;
                self.finish_moved()
            },
            RenameEvent::Completed(Err(x)) => {
                self.converted = true;
                self.push_error(concat2("Conversion succeeded but failed to remove original: ", x.as_str()));
                self.finish_moved()
            },
            _ => self.pending(),
        }
    }

    fn on_fallback_resolve(&mut self, event: RenameEvent) -> (a: RenameAction)
        requires
            old(self).wf(),
            old(self)@.stage is AwaitFallbackResolve,
        ensures
            final(self).wf(),
            (final(self)@, a@) == rename_next(old(self)@, event@),
    {
        match event {
            RenameEvent::Resolved(Err(c)) => {
                let mut reason = concat3("HEIC->JPG failed: ", self.convert_error.as_str(), "; ");
                reason.append(c.as_str());
                self.fail_entry(reason)
            },
            RenameEvent::Resolved(Ok(fb)) => {
                let from = self.entries[self.index].path.clone();
                let to = fb.clone();
                self.target = fb;
                self.stage = RenameStage::AwaitFallbackRename;
                RenameAction::RenameFile { from, to }
            },
            _ => self.pending(),
        }
    }

    fn on_fallback_rename(&mut self, event: RenameEvent) -> (a: RenameAction)
        requires
            old(self).wf(),
            old(self)@.stage is AwaitFallbackRename,
        ensures
            final(self).wf(),
            (final(self)@, a@) == rename_next(old(self)@, event@),
    {
        match event {
            RenameEvent::Completed(Ok(())) => {
                self.converted = false;
                let reason = concat3("HEIC\u{2192}JPG failed: ", self.convert_error.as_str(), ", renamed without conversion");
                self.push_error(reason);
                self.finish_moved()
            },
            RenameEvent::Completed(Err(x)) => {
                let reason = concat3(self.convert_error.as_str(), ", rename also failed: ", x.as_str());
                self.fail_entry(reason)
            },
            _ => self.pending(),
        }
    }

    fn on_rename(&mut self, event: RenameEvent) -> (a: RenameAction)
        requires
            old(self).wf(),
            old(self)@.stage is AwaitRename,
        ensures
            final(self).wf(),
            (final(self)@, a@) == rename_next(old(self)@, event@),
    {
        match event {
            RenameEvent::Completed(Ok(())) => {
                self.converted = false;
                self.finish_moved()
            },
            RenameEvent::Completed(Err(x)) => self.fail_entry(x),
            _ => self.pending(),
        }
    }

    fn on_moved_offset(&mut self, event: RenameEvent) -> (a: RenameAction)
        requires
            old(self).wf(),
            old(self)@.stage is AwaitMovedOffset,
        ensures
            final(self).wf(),
            (final(self)@, a@) == rename_next(old(self)@, event@),
    {
        match event {
            RenameEvent::Completed(_) => self.record_move(),
            _ => self.pending(),
        }
    }

    fn on_save(&mut self, event: RenameEvent) -> (a: RenameAction)
        requires
            old(self).wf(),
            old(self)@.stage is AwaitSave || old(self)@.stage is Done,
        ensures
            final(self).wf(),
            (final(self)@, a@) == rename_next(old(self)@, event@),
    {
        match (self.stage, event) {
            (RenameStage::AwaitSave, RenameEvent::Completed(_)) => {
                self.stage = RenameStage::Done;
                RenameAction::Finished(
                    RenameResult {
                        success_count: self.success,
                        error_count: self.errors.len(),
                        errors: clone_errors(&self.errors),
                    },
                )
            },
            _ => self.pending(),
        }
    }

    /// Advances the run with the outcome of the last action and returns the
    /// next action to perform (see `rename_next`).
    pub fn next(&mut self, event: RenameEvent) -> (a: RenameAction)
        requires
            old(self).wf(),
            fallback_is_possible(old(self)@, event@),
        ensures
            final(self).wf(),
            (final(self)@, a@) == rename_next(old(self)@, event@),
            rename_wf(final(self)@),
            fallback_request_in_place(final(self)@),
    {
        match self.stage {
            RenameStage::Progress => self.on_progress(event),
            RenameStage::AwaitInPlaceOffset => self.on_in_place_offset(event),
            RenameStage::AwaitResolve => self.on_resolve(event),
            RenameStage::AwaitConvert => self.on_convert(event),
            RenameStage::AwaitRemoveOriginal => self.on_remove_original(event),
            RenameStage::AwaitFallbackResolve => self.on_fallback_resolve(event),
            RenameStage::AwaitFallbackRename => self.on_fallback_rename(event),
            RenameStage::AwaitRename => self.on_rename(event),
            RenameStage::AwaitMovedOffset => self.on_moved_offset(event),
            RenameStage::AwaitSave => self.on_save(event),
            RenameStage::Done => self.on_save(event),
        }
    }

    /// Resolves the name collision the run is asking about with
    /// `resolve_conflict` and the existence check `is_taken`, and continues
    /// the run with the answer (see `rename_next`). When the run is not
    /// waiting on a collision, it is left as it is and its pending action is
    /// returned. A rename or conversion asked for right after a resolution
    /// targets a path that `is_taken` reported free: the run never moves a
    /// file onto one the check reports as existing.
    pub fn resolve_and_next<F: Fn(&str) -> bool>(&mut self, is_taken: &F) -> (a: RenameAction)
        requires
            old(self).wf(),
            forall|p: &str| #[trigger] is_taken.requires((p,)),
        ensures
            final(self).wf(),
            rename_wf(final(self)@),
            fallback_request_in_place(final(self)@),
            !(rename_pending(old(self)@) is ResolveConflict) ==> final(self)@ == old(self)@ && a@
                == rename_pending(old(self)@),
            rename_pending(old(self)@) is ResolveConflict ==> exists|res: Result<Seq<char>, Seq<char>>|
                #![trigger resolves(rename_pending(old(self)@)->ResolveConflict_0, MAX_COLLISION_SUFFIX as nat, *is_taken, res)]
                resolves(rename_pending(old(self)@)->ResolveConflict_0, MAX_COLLISION_SUFFIX as nat, *is_taken, res)
                    && (plain_file_target(rename_pending(old(self)@)->ResolveConflict_0) ==> (res matches Ok(p)
                    ==> in_same_directory(rename_pending(old(self)@)->ResolveConflict_0, p) && plain_file_target(p)))
                    && final(self)@ == rename_next(old(self)@, RenameEventView::Resolved(res)).0
                    && a@ == rename_next(old(self)@, RenameEventView::Resolved(res)).1,
            rename_pending(old(self)@) is ResolveConflict ==> match a@ {
                RenameActionView::RenameFile(_, to) => reported(*is_taken, to, false),
                RenameActionView::ConvertHeic(_, to, _) => reported(*is_taken, to, false),
                _ => true,
            },
            old(self)@.stage is AwaitResolve && requests_in_place(old(self)@) ==> match a@ {
                RenameActionView::RenameFile(from, to) => spec_is_safe_undo_pair(from, to),
                RenameActionView::ConvertHeic(from, to, _) => spec_is_safe_undo_pair(from, to),
                _ => true,
            },
    {
        let ghost s0 = self@;
        let p = self.pending();
        match p {
            RenameAction::ResolveConflict(t) => {
                let res = resolve_conflict(t.as_str(), is_taken);
                let ghost rv = result_view(res);
                let ev = RenameEvent::Resolved(res);
                assert(ev@ == RenameEventView::Resolved(rv));
                let a = self.next(ev);
                proof {
                    assert(resolves(t@, MAX_COLLISION_SUFFIX as nat, *is_taken, rv)
                        && (self@, a@) == rename_next(s0, RenameEventView::Resolved(rv)));
                    if rv is Ok {
                        let f = rv->Ok_0;
                        let k = choose|k: nat|
                            #![trigger candidate(t@, k)]
                            k <= MAX_COLLISION_SUFFIX && f == candidate(t@, k) && reported(*is_taken, f, false)
                                && forall|j: nat| j < k ==> reported(*is_taken, #[trigger] candidate(t@, j), true);
                        assert(reported(*is_taken, f, false));
                    }
                    assert(rename_pending(s0) == RenameActionView::ResolveConflict(t@));
                    assert(rename_pending(s0)->ResolveConflict_0 == t@);
                    assert(resolves(rename_pending(s0)->ResolveConflict_0, MAX_COLLISION_SUFFIX as nat, *is_taken, rv));
                    assert(self@ == rename_next(s0, RenameEventView::Resolved(rv)).0);
                    assert(a@ == rename_next(s0, RenameEventView::Resolved(rv)).1);
                }
                a
            },
            _ => p,
        }
    }
}

/// Law: a rename run keeps its bookkeeping across every step, whatever the
/// caller reports: the state stays well formed, the entries do not change,
/// and the result it finishes with counts its errors exactly, never counts
/// more successes than files, and records an error for every file it did
/// not rename (so successes and errors together cover all files), with at
/// most one undo entry per success.
pub proof fn law_rename_step_keeps_accounts(s: RenameRunView, ev: RenameEventView)
    requires
        rename_wf(s),
        fallback_is_possible(s, ev),
    ensures
        rename_wf(rename_next(s, ev).0),
        rename_next(s, ev).0.entries == s.entries,
        rename_next(s, ev).0.undo.len() <= rename_next(s, ev).0.success,
        rename_next(s, ev).1 matches RenameActionView::Finished(ok, count, errs) ==> {
            &&& count == errs.len()
            &&& ok <= run_len(s)
            &&& ok + errs.len() >= run_len(s)
            &&& errs.len() <= run_len(s)
        },
{
}

/// Law: a file without a known date is skipped: once its progress is
/// reported, the run records the error `No date available, skipped` for it
/// and moves on to the next file (or to saving the undo log) without any
/// file-system change.
pub proof fn law_undated_files_are_skipped(s: RenameRunView, ev: RenameEventView)
    requires
        rename_wf(s),
        s.stage is Progress,
        !cur(s).has_date,
        ev is Completed,
    ensures
        rename_next(s, ev).1 is EmitProgress || rename_next(s, ev).1 is SaveUndoLog,
        rename_next(s, ev).0.errors == s.errors.push(error_for(s, "No date available, skipped"@)),
        rename_next(s, ev).0.undo == s.undo,
        rename_next(s, ev).0.success == s.success,
{
}

/// Law: every conversion, removal or rename a run asks for concerns the file
/// it is handling: the source is that file's own path, a rename goes to the
/// target the collision check returned, a conversion happens only for a HEIC
/// file when conversion was asked for, with the fixed JPEG quality.
pub proof fn law_file_changes_concern_the_current_file(s: RenameRunView, ev: RenameEventView)
    requires
        rename_wf(s),
    ensures
        ({
            let (t, a) = rename_next(s, ev);
            &&& a matches RenameActionView::RemoveFile(p) ==> p == cur(t).path && cur(t).is_heic && t.convert_heic
            &&& a matches RenameActionView::RenameFile(from, to) ==> from == cur(t).path && to == t.target
            &&& a matches RenameActionView::ConvertHeic(from, to, q) ==> from == cur(t).path && to == t.target
                && cur(t).is_heic && t.convert_heic && q == HEIC_JPEG_QUALITY
        }),
{
}

/// Law: undo reverses a rename. When a plain rename of the current file to
/// its target succeeds, the run records an undo entry from the file's path
/// to that target (after any timestamp shift); an undo run over that entry,
/// when the pair passes the undo path checks, first checks that the renamed
/// file exists and then renames it from the target back to its original path.
pub proof fn law_undo_reverses_a_plain_rename(s: RenameRunView)
    requires
        rename_wf(s),
        s.stage is AwaitRename,
        spec_is_safe_undo_pair(cur(s).path, s.target),
    ensures
        ({
            let t1 = rename_next(s, RenameEventView::Completed(Ok(()))).0;
            let t = if t1.stage is AwaitMovedOffset {
                rename_next(t1, RenameEventView::Completed(Ok(()))).0
            } else {
                t1
            };
            let u = t.undo.last();
            let u0 = UndoRunView {
                entries: seq![u],
                remaining: 1,
                stage: UndoStage::NotStarted,
                success: 0,
                errors: Seq::empty(),
                clear_error: None,
            };
            let (u1, a1) = undo_next(u0, UndoEventView::Start);
            &&& t.undo.len() == s.undo.len() + 1
            &&& u.original_path == cur(s).path
            &&& u.new_path == s.target
            &&& !u.was_heic_conversion
            &&& a1 == UndoActionView::CheckExists(s.target)
            &&& undo_next(u1, UndoEventView::Exists(true)).1 == UndoActionView::RenameFile(s.target, cur(s).path)
        }),
{
    let t1 = rename_next(s, RenameEventView::Completed(Ok(()))).0;
    let t = if t1.stage is AwaitMovedOffset {
        rename_next(t1, RenameEventView::Completed(Ok(()))).0
    } else {
        t1
    };
    let u = t.undo.last();
    let u0 = UndoRunView {
        entries: seq![u],
        remaining: 1,
        stage: UndoStage::NotStarted,
        success: 0,
        errors: Seq::empty(),
        clear_error: None,
    };
    assert(current_entry(u0) == u);
    let (u1, a1) = undo_next(u0, UndoEventView::Start);
    assert(u1.stage is AwaitExists);
    assert(current_entry(u1) == u);
}

/// Law: the time offset is applied even when the new name equals the
/// current one: the file is left where it is and only its timestamps are
/// shifted, after which it counts as handled successfully.
pub proof fn law_offset_applies_without_renaming(s: RenameRunView, ev: RenameEventView)
    requires
        rename_wf(s),
        s.stage is Progress,
        ev is Completed,
        cur(s).has_date,
        std_path_components(cur(s).path) == std_path_components(requested_path(s)),
        offset_target(cur(s).datetime, s.offset_seconds) is Some,
    ensures
        rename_next(s, ev).1 == RenameActionView::ApplyOffset(
            cur(s).path,
            offset_target(cur(s).datetime, s.offset_seconds)->0,
            s.has_exiftool,
        ),
        rename_next(rename_next(s, ev).0, RenameEventView::Completed(Ok(()))).0.success == s.success + 1,
{
}

/// Law: a file that already carries its requested name is never moved. For
/// a dated entry whose requested path names the same file (equal
/// components), the step after its progress report asks for no collision
/// resolution, rename or conversion and records no undo entry: with a time
/// offset it shifts the times of the file's own path and then counts it as a
/// success; without one it counts the file as a success at once and moves
/// on to the next entry.
pub proof fn law_already_named_file_is_left_in_place(s: RenameRunView, ev: RenameEventView)
    requires
        rename_wf(s),
        s.stage is Progress,
        s.index < run_len(s),
        ev is Completed,
        cur(s).has_date,
        std_path_components(cur(s).path) == std_path_components(requested_path(s)),
    ensures
        ({
            let (s2, a) = rename_next(s, ev);
            &&& !(a is ResolveConflict) && !(a is RenameFile) && !(a is ConvertHeic) && !(a is RemoveFile)
            &&& s2.undo == s.undo
            &&& s2.errors == s.errors
            &&& match offset_target(cur(s).datetime, s.offset_seconds) {
                Some(t) => {
                    &&& a == RenameActionView::ApplyOffset(cur(s).path, t, s.has_exiftool)
                    &&& s2.index == s.index
                    &&& rename_next(s2, RenameEventView::Completed(Ok(()))).0.success == s.success + 1
                    &&& rename_next(s2, RenameEventView::Completed(Ok(()))).0.index == s.index + 1
                    &&& rename_next(s2, RenameEventView::Completed(Ok(()))).0.undo == s.undo
                },
                None => {
                    &&& s2.index == s.index + 1
                    &&& s2.success == s.success + 1
                },
            }
        }),
{
}

/// Law: a time offset follows the moved file. Once a file has been moved
/// (its rename, or the fallback rename after a failed conversion, reported
/// done, or the removal of the converted original answered), and the offset
/// gives it a new time `t`, the run asks to set the times of the path the
/// file was moved to, `s.target`, not of its former path; and that request
/// is the one the run then waits on.
pub proof fn law_offset_follows_the_moved_file(s: RenameRunView, ev: RenameEventView)
    requires
        rename_wf(s),
        (s.stage is AwaitRename && ev == RenameEventView::Completed(Ok(())))
            || (s.stage is AwaitFallbackRename && ev == RenameEventView::Completed(Ok(())))
            || (s.stage is AwaitRemoveOriginal && ev is Completed),
        offset_target(cur(s).datetime, s.offset_seconds) is Some,
    ensures
        rename_next(s, ev).1 == RenameActionView::ApplyOffset(
            s.target,
            offset_target(cur(s).datetime, s.offset_seconds)->0,
            s.has_exiftool,
        ),
        rename_pending(rename_next(s, ev).0) == rename_next(s, ev).1,
        rename_next(s, ev).0.target == s.target,
{
}

} // verus!
