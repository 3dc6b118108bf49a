//! Undo of the last rename run: which recorded paths may be touched, and the
//! decisions taken for each recorded entry.

use vstd::prelude::*;

use crate::path::{
    file_name, is_normal_absolute_file_path, parents_equal, parent_len, parts_prefix_equal,
    parts_view, path_parts, spec_file_name, spec_is_normal_absolute_file_path, spec_parent,
    std_path_components, std_path_with_extension, path_with_extension, PathPart,
};
use crate::models::{opt_view, strings_view, undo_entries_view, UndoEntry, UndoEntryView, UndoLog};
use crate::text::{
    concat2, concat3, concat4, dec, decimal_string, join_strings, seq_join, str_equal,
    str_starts_with,
};

verus! {

/// A recorded pair may be undone only when both paths are normal absolute
/// file paths in the same directory.
pub open spec fn spec_is_safe_undo_pair(original: Seq<char>, new: Seq<char>) -> bool {
    &&& spec_is_normal_absolute_file_path(original)
    &&& spec_is_normal_absolute_file_path(new)
    &&& spec_parent(std_path_components(original)) == spec_parent(std_path_components(new))
}

/// Whether `s` starts with `prefix`.
pub open spec fn seq_starts_with(s: Seq<char>, prefix: Seq<char>) -> bool {
    prefix.len() <= s.len() && s.subrange(0, prefix.len() as int) == prefix
}

/// A backup copy may restore `original` only when it is a normal absolute
/// file path with the same file name, inside a directory whose name starts
/// with `backup_` and which sits next to `original`.
pub open spec fn spec_is_safe_backup_path(original: Seq<char>, backup: Seq<char>) -> bool {
    let bp = std_path_components(backup);
    let op = std_path_components(original);
    &&& spec_is_normal_absolute_file_path(backup)
    &&& spec_file_name(bp) == spec_file_name(op)
    &&& match spec_parent(bp) {
        None => false,
        Some(dir) => match spec_file_name(dir) {
            None => false,
            Some(name) => seq_starts_with(name, "backup_"@) && spec_parent(dir) == spec_parent(op),
        },
    }
}

fn option_string_equal(a: &Option<String>, b: &Option<String>) -> (r: bool)
    ensures
        r == (match (a, b) {
            (Some(x), Some(y)) => x@ == y@,
            (None, None) => true,
            _ => false,
        }),
{
    match (a, b) {
        (Some(x), Some(y)) => str_equal(x.as_str(), y.as_str()),
        (None, None) => true,
        _ => false,
    }
}

/// Whether an undo-log pair may be undone (see `spec_is_safe_undo_pair`).
pub fn is_safe_undo_pair(original_path: &str, new_path: &str) -> (r: bool)
    ensures
        r == spec_is_safe_undo_pair(original_path@, new_path@),
{
    if !is_normal_absolute_file_path(original_path) || !is_normal_absolute_file_path(new_path) {
        return false;
    }
    let o = path_parts(original_path);
    let n = path_parts(new_path);
    parents_equal(&o, &n)
}

/// Whether `backup_path` is an acceptable backup copy of `original_path`
/// (see `spec_is_safe_backup_path`).
pub fn is_safe_backup_path(original_path: &str, backup_path: &str) -> (r: bool)
    ensures
        r == spec_is_safe_backup_path(original_path@, backup_path@),
{
    if !is_normal_absolute_file_path(backup_path) {
        return false;
    }
    let b = path_parts(backup_path);
    let o = path_parts(original_path);
    let bname = file_name(&b);
    let oname = file_name(&o);
    if !option_string_equal(&bname, &oname) {
        return false;
    }
    let n = match parent_len(&b) {
        Some(n) => n,
        None => { return false; },
    };
    if n == 0 {
        return false;
    }
    let ghost dir = parts_view(b@).subrange(0, n as int);
    assert(dir.last() == parts_view(b@)[n - 1]);
    match &b[n - 1] {
        PathPart::Normal(name) => {
            if !str_starts_with(name.as_str(), "backup_") {
                return false;
            }
            assert(dir.drop_last() =~= parts_view(b@).subrange(0, n - 1));
            match parent_len(&o) {
                Some(m) => parts_prefix_equal(&b, n - 1, &o, m),
                None => false,
            }
        },
        _ => false,
    }
}

/// Where an undo run stands. The entry being undone is
/// `entries[remaining - 1]`: the log is undone from its last entry back.
#[derive(Clone, Copy)]
pub enum UndoStage {
    NotStarted,
    AwaitBackupExists,
    AwaitConvertedExists,
    AwaitRemove,
    AwaitCopy,
    AwaitFallbackExists,
    AwaitFallbackRename,
    AwaitExists,
    AwaitRename,
    AwaitClear,
    Done,
}

/// What the caller reports back after performing the last action.
pub enum UndoEvent {
    Start,
    Exists(bool),
    Completed(Result<(), String>),
}

/// The next file-system step an undo run asks for.
pub enum UndoAction {
    CheckExists(String),
    RemoveFile(String),
    CopyFile { from: String, to: String },
    RenameFile { from: String, to: String },
    ClearLog,
    Finished(Result<String, String>),
}

/// The state of an undo run over the entries of an undo log.
pub struct UndoRun {
    entries: Vec<UndoEntry>,
    remaining: usize,
    stage: UndoStage,
    success: usize,
    errors: Vec<String>,
    clear_error: Option<String>,
}

/// Mathematical value of an `UndoRun`.
pub struct UndoRunView {
    pub entries: Seq<UndoEntryView>,
    pub remaining: nat,
    pub stage: UndoStage,
    pub success: nat,
    pub errors: Seq<Seq<char>>,
    pub clear_error: Option<Seq<char>>,
}

/// Mathematical value of an `UndoEvent`.
pub enum UndoEventView {
    Start,
    Exists(bool),
    Completed(Result<(), Seq<char>>),
}

/// Mathematical value of an `UndoAction`.
pub enum UndoActionView {
    CheckExists(Seq<char>),
    RemoveFile(Seq<char>),
    CopyFile(Seq<char>, Seq<char>),
    RenameFile(Seq<char>, Seq<char>),
    ClearLog,
    Finished(Result<Seq<char>, Seq<char>>),
}

impl View for UndoRun {
    type V = UndoRunView;

    closed spec fn view(&self) -> UndoRunView {
        UndoRunView {
            entries: undo_entries_view(self.entries@),
            remaining: self.remaining as nat,
            stage: self.stage,
            success: self.success as nat,
            errors: strings_view(self.errors@),
            clear_error: opt_view(self.clear_error),
        }
    }
}

impl View for UndoEvent {
    type V = UndoEventView;

    open spec fn view(&self) -> UndoEventView {
        match self {
            UndoEvent::Start => UndoEventView::Start,
            UndoEvent::Exists(b) => UndoEventView::Exists(*b),
            UndoEvent::Completed(Ok(())) => UndoEventView::Completed(Ok(())),
            UndoEvent::Completed(Err(e)) => UndoEventView::Completed(Err(e@)),
        }
    }
}

impl View for UndoAction {
    type V = UndoActionView;

    open spec fn view(&self) -> UndoActionView {
        match self {
            UndoAction::CheckExists(p) => UndoActionView::CheckExists(p@),
            UndoAction::RemoveFile(p) => UndoActionView::RemoveFile(p@),
            UndoAction::CopyFile { from, to } => UndoActionView::CopyFile(from@, to@),
            UndoAction::RenameFile { from, to } => UndoActionView::RenameFile(from@, to@),
            UndoAction::ClearLog => UndoActionView::ClearLog,
            UndoAction::Finished(Ok(m)) => UndoActionView::Finished(Ok(m@)),
            UndoAction::Finished(Err(m)) => UndoActionView::Finished(Err(m@)),
        }
    }
}

/// Message when the undo log is missing.
pub open spec fn no_undo_message() -> Seq<char> {
    "No rename operation to undo"@
}

/// The error when there is no undo log to undo.
pub fn no_undo_error() -> (r: String)
    ensures
        r@ == no_undo_message(),
{
    String::from_str("No rename operation to undo")
}

/// The final message of an undo run.
pub open spec fn undo_summary(success: nat, errors: Seq<Seq<char>>) -> Seq<char> {
    if errors.len() == 0 {
        "Successfully restored "@ + dec(success) + " files"@
    } else {
        "Restored "@ + dec(success) + " files with "@ + dec(errors.len()) + " errors: "@
            + seq_join(errors, "; "@)
    }
}

/// The entry an undo run is working on.
pub open spec fn current_entry(s: UndoRunView) -> UndoEntryView {
    s.entries[s.remaining - 1]
}

pub open spec fn with_stage(s: UndoRunView, stage: UndoStage) -> UndoRunView {
    UndoRunView { stage: stage, ..s }
}

/// The current entry is given up with an error message.
pub open spec fn entry_failed(s: UndoRunView, msg: Seq<char>) -> UndoRunView {
    UndoRunView { remaining: (s.remaining - 1) as nat, errors: s.errors.push(msg), ..s }
}

/// The current entry is restored.
pub open spec fn entry_restored(s: UndoRunView) -> UndoRunView {
    UndoRunView { remaining: (s.remaining - 1) as nat, success: s.success + 1, ..s }
}

/// The fallback target when a converted file has no backup: the original
/// path with a `jpg` extension.
pub open spec fn fallback_jpg_path(original: Seq<char>) -> Seq<char> {
    std_path_with_extension(original, "jpg"@)
}

/// Starts on the next entry still to undo (or on clearing the log when none is
/// left), skipping entries that fail the path checks.
pub open spec fn begin_entry(s: UndoRunView) -> (UndoRunView, UndoActionView)
    decreases s.remaining,
{
    if s.remaining == 0 {
        (with_stage(s, UndoStage::AwaitClear), UndoActionView::ClearLog)
    } else {
        let e = current_entry(s);
        if !spec_is_safe_undo_pair(e.original_path, e.new_path) {
            begin_entry(entry_failed(s, "Unsafe paths in undo log entry for "@ + e.original_path))
        } else if e.was_heic_conversion {
            match e.backup_original_path {
                Some(b) => if !spec_is_safe_backup_path(e.original_path, b) {
                    begin_entry(
                        entry_failed(s, "Unsafe backup path in undo log entry for "@ + e.original_path),
                    )
                } else {
                    (with_stage(s, UndoStage::AwaitBackupExists), UndoActionView::CheckExists(b))
                },
                None => (
                    with_stage(s, UndoStage::AwaitFallbackExists),
                    UndoActionView::CheckExists(e.new_path),
                ),
            }
        } else {
            (with_stage(s, UndoStage::AwaitExists), UndoActionView::CheckExists(e.new_path))
        }
    }
}

/// The result an undo run ends with.
pub open spec fn undo_outcome(s: UndoRunView) -> Result<Seq<char>, Seq<char>> {
    match s.clear_error {
        Some(e) => Err(e),
        None => Ok(undo_summary(s.success, s.errors)),
    }
}

/// The action a run in state `s` is waiting on.
pub open spec fn pending_action(s: UndoRunView) -> UndoActionView {
    let e = current_entry(s);
    match s.stage {
        UndoStage::NotStarted => begin_entry(s).1,
        UndoStage::AwaitBackupExists => UndoActionView::CheckExists(e.backup_original_path->0),
        UndoStage::AwaitConvertedExists => UndoActionView::CheckExists(e.new_path),
        UndoStage::AwaitRemove => UndoActionView::RemoveFile(e.new_path),
        UndoStage::AwaitCopy => UndoActionView::CopyFile(e.backup_original_path->0, e.original_path),
        UndoStage::AwaitFallbackExists => UndoActionView::CheckExists(e.new_path),
        UndoStage::AwaitFallbackRename => UndoActionView::RenameFile(
            e.new_path,
            fallback_jpg_path(e.original_path),
        ),
        UndoStage::AwaitExists => UndoActionView::CheckExists(e.new_path),
        UndoStage::AwaitRename => UndoActionView::RenameFile(e.new_path, e.original_path),
        UndoStage::AwaitClear => UndoActionView::ClearLog,
        UndoStage::Done => UndoActionView::Finished(undo_outcome(s)),
    }
}

/// One step of an undo run: the new state and the next action, given the
/// outcome of the previous action. An event that does not answer the pending
/// action leaves the run unchanged and repeats that action.
pub open spec fn undo_next(s: UndoRunView, ev: UndoEventView) -> (UndoRunView, UndoActionView) {
    let e = current_entry(s);
    let unchanged = (s, pending_action(s));
    match s.stage {
        UndoStage::NotStarted => begin_entry(s),
        UndoStage::AwaitBackupExists => match ev {
            UndoEventView::Exists(true) => (
                with_stage(s, UndoStage::AwaitConvertedExists),
                UndoActionView::CheckExists(e.new_path),
            ),
            UndoEventView::Exists(false) => begin_entry(
                entry_failed(s, "Backup copy not found for "@ + e.original_path),
            ),
            _ => unchanged,
        },
        UndoStage::AwaitConvertedExists => match ev {
            UndoEventView::Exists(true) => (
                with_stage(s, UndoStage::AwaitRemove),
                UndoActionView::RemoveFile(e.new_path),
            ),
            UndoEventView::Exists(false) => (
                with_stage(s, UndoStage::AwaitCopy),
                UndoActionView::CopyFile(e.backup_original_path->0, e.original_path),
            ),
            _ => unchanged,
        },
        UndoStage::AwaitRemove => match ev {
            UndoEventView::Completed(Ok(())) => (
                with_stage(s, UndoStage::AwaitCopy),
                UndoActionView::CopyFile(e.backup_original_path->0, e.original_path),
            ),
            UndoEventView::Completed(Err(x)) => begin_entry(
                entry_failed(s, "Failed to remove converted file "@ + e.new_path + ": "@ + x),
            ),
            _ => unchanged,
        },
        UndoStage::AwaitCopy => match ev {
            UndoEventView::Completed(Ok(())) => begin_entry(entry_restored(s)),
            UndoEventView::Completed(Err(x)) => begin_entry(
                entry_failed(
                    s,
                    "Failed to restore original from backup "@ + e.original_path + ": "@ + x,
                ),
            ),
            _ => unchanged,
        },
        UndoStage::AwaitFallbackExists => match ev {
            UndoEventView::Exists(true) => (
                with_stage(s, UndoStage::AwaitFallbackRename),
                UndoActionView::RenameFile(e.new_path, fallback_jpg_path(e.original_path)),
            ),
            UndoEventView::Exists(false) => begin_entry(
                entry_failed(s, "File not found: "@ + e.new_path),
            ),
            _ => unchanged,
        },
        UndoStage::AwaitFallbackRename => match ev {
            UndoEventView::Completed(Ok(())) => begin_entry(entry_restored(s)),
            UndoEventView::Completed(Err(x)) => begin_entry(
                entry_failed(
                    s,
                    "Failed to partially restore converted file "@ + e.new_path + ": "@ + x,
                ),
            ),
            _ => unchanged,
        },
        UndoStage::AwaitExists => match ev {
            UndoEventView::Exists(true) => (
                with_stage(s, UndoStage::AwaitRename),
                UndoActionView::RenameFile(e.new_path, e.original_path),
            ),
            UndoEventView::Exists(false) => begin_entry(
                entry_failed(s, "File not found: "@ + e.new_path),
            ),
            _ => unchanged,
        },
        UndoStage::AwaitRename => match ev {
            UndoEventView::Completed(Ok(())) => begin_entry(entry_restored(s)),
            UndoEventView::Completed(Err(x)) => begin_entry(
                entry_failed(s, "Failed to restore "@ + e.new_path + ": "@ + x),
            ),
            _ => unchanged,
        },
        UndoStage::AwaitClear => match ev {
            UndoEventView::Completed(Ok(())) => (
                with_stage(s, UndoStage::Done),
                UndoActionView::Finished(Ok(undo_summary(s.success, s.errors))),
            ),
            UndoEventView::Completed(Err(x)) => (
                UndoRunView { stage: UndoStage::Done, clear_error: Some(x), ..s },
                UndoActionView::Finished(Err(x)),
            ),
            _ => unchanged,
        },
        UndoStage::Done => unchanged,
    }
}

/// Well-formed states: every entry is counted once (restored, failed, or
/// still to do), and each waiting stage belongs to an entry that passed the
/// checks that stage relies on.
pub open spec fn undo_wf(s: UndoRunView) -> bool {
    &&& s.remaining <= s.entries.len()
    &&& s.success + s.errors.len() + s.remaining == s.entries.len()
    &&& (s.stage is AwaitClear || s.stage is Done) ==> s.remaining == 0
    &&& s.clear_error is Some ==> s.stage is Done
    &&& stage_fits_entry(s)
}

/// The current entry suits the stage the run is in.
pub open spec fn stage_fits_entry(s: UndoRunView) -> bool {
    let e = current_entry(s);
    match s.stage {
        UndoStage::AwaitBackupExists | UndoStage::AwaitConvertedExists | UndoStage::AwaitRemove
        | UndoStage::AwaitCopy => {
            &&& s.remaining > 0
            &&& spec_is_safe_undo_pair(e.original_path, e.new_path)
            &&& e.was_heic_conversion
            &&& e.backup_original_path is Some
            &&& spec_is_safe_backup_path(e.original_path, e.backup_original_path->0)
        },
        UndoStage::AwaitFallbackExists | UndoStage::AwaitFallbackRename => {
            &&& s.remaining > 0
            &&& spec_is_safe_undo_pair(e.original_path, e.new_path)
            &&& e.was_heic_conversion
            &&& e.backup_original_path is None
        },
        UndoStage::AwaitExists | UndoStage::AwaitRename => {
            &&& s.remaining > 0
            &&& spec_is_safe_undo_pair(e.original_path, e.new_path)
            &&& !e.was_heic_conversion
        },
        _ => true,
    }
}

proof fn lemma_begin_entry_wf(s: UndoRunView)
    requires
        s.remaining <= s.entries.len(),
        s.success + s.errors.len() + s.remaining == s.entries.len(),
        s.clear_error is None,
    ensures
        undo_wf(begin_entry(s).0),
        begin_entry(s).0.entries == s.entries,
        begin_entry(s).1 is CheckExists || begin_entry(s).1 is ClearLog,
    decreases s.remaining,
{
    if s.remaining > 0 {
        let e = current_entry(s);
        if !spec_is_safe_undo_pair(e.original_path, e.new_path) {
            lemma_begin_entry_wf(entry_failed(s, "Unsafe paths in undo log entry for "@ + e.original_path));
        } else if e.was_heic_conversion {
            if let Some(b) = e.backup_original_path {
                if !spec_is_safe_backup_path(e.original_path, b) {
                    lemma_begin_entry_wf(
                        entry_failed(s, "Unsafe backup path in undo log entry for "@ + e.original_path),
                    );
                }
            }
        }
    }
}

/// Starting on an entry never finishes the run by itself.
pub proof fn lemma_begin_entry_never_finishes(s: UndoRunView)
    ensures
        !(begin_entry(s).1 is Finished),
    decreases s.remaining,
{
    if s.remaining > 0 {
        let e = current_entry(s);
        lemma_begin_entry_never_finishes(entry_failed(s, "Unsafe paths in undo log entry for "@ + e.original_path));
        lemma_begin_entry_never_finishes(
            entry_failed(s, "Unsafe backup path in undo log entry for "@ + e.original_path),
        );
    }
}

impl UndoRun {
    /// Well-formedness of the run's state.
    pub closed spec fn wf(&self) -> bool {
        &&& undo_wf(self@)
        &&& self@.entries.len() == self.entries@.len()
    }

    /// A run over the entries of `log`, not yet started.
    pub fn new(log: UndoLog) -> (r: UndoRun)
        ensures
            r.wf(),
            r@ == (UndoRunView {
                entries: undo_entries_view(log.entries@),
                remaining: log.entries@.len(),
                stage: UndoStage::NotStarted,
                success: 0,
                errors: Seq::empty(),
                clear_error: None,
            }),
    {
        let n = log.entries.len();
        let r = UndoRun {
            entries: log.entries,
            remaining: n,
            stage: UndoStage::NotStarted,
            success: 0,
            errors: Vec::new(),
            clear_error: None,
        };
        assert(strings_view(r.errors@) =~= Seq::empty());
        r
    }

    fn fail_current(&mut self, msg: String)
        requires
            old(self).remaining > 0,
            old(self).remaining <= old(self).entries@.len(),
            old(self).success + old(self).errors@.len() + old(self).remaining == old(self).entries@.len(),
        ensures
            final(self)@ == entry_failed(old(self)@, msg@),
            final(self).entries@ == old(self).entries@,
            final(self).success == old(self).success,
            final(self).errors@.len() == old(self).errors@.len() + 1,
            final(self).remaining == old(self).remaining - 1,
            final(self).clear_error == old(self).clear_error,
    {
        self.errors.push(msg);
        self.remaining = self.remaining - 1;
        assert(strings_view(self.errors@) =~= strings_view(old(self).errors@).push(msg@));
    }

    fn begin_entry(&mut self) -> (a: UndoAction)
        requires
            old(self).remaining <= old(self).entries@.len(),
            old(self).success + old(self).errors@.len() + old(self).remaining == old(self).entries@.len(),
            old(self).clear_error is None,
        ensures
            (final(self)@, a@) == begin_entry(old(self)@),
            final(self).entries@ == old(self).entries@,
    {
        loop
            invariant
                self.remaining <= self.entries@.len(),
                self.success + self.errors@.len() + self.remaining == self.entries@.len(),
                self.clear_error is None,
                self.entries@ == old(self).entries@,
                begin_entry(self@) == begin_entry(old(self)@),
            decreases self.remaining,
        {
            if self.remaining == 0 {
                self.stage = UndoStage::AwaitClear;
                return UndoAction::ClearLog;
            }
            let idx = self.remaining - 1;
            let ghost e = current_entry(self@);
            assert(self.entries@[idx as int]@ == e);
            if !is_safe_undo_pair(self.entries[idx].original_path.as_str(), self.entries[idx].new_path.as_str()) {
                let msg = concat2("Unsafe paths in undo log entry for ", self.entries[idx].original_path.as_str());
                self.fail_current(msg);
                continue;
            }
            if self.entries[idx].was_heic_conversion {
                match &self.entries[idx].backup_original_path {
                    Some(b) => {
                        if !is_safe_backup_path(self.entries[idx].original_path.as_str(), b.as_str()) {
                            let msg = concat2(
                                "Unsafe backup path in undo log entry for ",
                                self.entries[idx].original_path.as_str(),
                            );
                            self.fail_current(msg);
                            continue;
                        }
                        let p = b.clone();
                        self.stage = UndoStage::AwaitBackupExists;
                        return UndoAction::CheckExists(p);
                    },
                    None => {
                        let p = self.entries[idx].new_path.clone();
                        self.stage = UndoStage::AwaitFallbackExists;
                        return UndoAction::CheckExists(p);
                    },
                }
            } else {
                let p = self.entries[idx].new_path.clone();
                self.stage = UndoStage::AwaitExists;
                return UndoAction::CheckExists(p);
            }
        }
    }

    fn summary(&self) -> (r: String)
        requires
            self.wf(),
        ensures
            r@ == undo_summary(self@.success, self@.errors),
    {
        let ds = decimal_string(self.success as u64);
        if self.errors.len() == 0 {
            concat3("Successfully restored ", ds.as_str(), " files")
        } else {
            let dn = decimal_string(self.errors.len() as u64);
            let joined = join_strings(&self.errors, "; ");
            let mut r = concat4("Restored ", ds.as_str(), " files with ", dn.as_str());
            r.append(" errors: ");
            r.append(joined.as_str());
            r
        }
    }

    fn current_backup(&self) -> (r: String)
        requires
            self.wf(),
            stage_fits_entry(self@),
            self@.stage is AwaitBackupExists || self@.stage is AwaitConvertedExists
                || self@.stage is AwaitRemove || self@.stage is AwaitCopy,
        ensures
            r@ == current_entry(self@).backup_original_path->0,
    {
        let idx = self.remaining - 1;
        assert(self.entries@[idx as int]@ == current_entry(self@));
        match &self.entries[idx].backup_original_path {
            Some(b) => b.clone(),
            None => String::new(),
        }
    }

    fn current_original(&self) -> (r: String)
        requires
            self.wf(),
            self@.remaining > 0,
        ensures
            r@ == current_entry(self@).original_path,
    {
        let idx = self.remaining - 1;
        assert(self.entries@[idx as int]@ == current_entry(self@));
        self.entries[idx].original_path.clone()
    }

    fn current_new(&self) -> (r: String)
        requires
            self.wf(),
            self@.remaining > 0,
        ensures
            r@ == current_entry(self@).new_path,
    {
        let idx = self.remaining - 1;
        assert(self.entries@[idx as int]@ == current_entry(self@));
        self.entries[idx].new_path.clone()
    }

    fn fallback_target(&self) -> (r: String)
        requires
            self.wf(),
            self@.remaining > 0,
        ensures
            r@ == fallback_jpg_path(current_entry(self@).original_path),
    {
        let original = self.current_original();
        let jpg = "jpg";
        proof {
            reveal_strlit("jpg");
        }
        path_with_extension(original.as_str(), jpg)
    }

    fn pending(&self) -> (a: UndoAction)
        requires
            self.wf(),
            !(self@.stage is NotStarted),
        ensures
            a@ == pending_action(self@),
    {
        match self.stage {
            UndoStage::NotStarted => UndoAction::ClearLog,
            UndoStage::AwaitBackupExists => UndoAction::CheckExists(self.current_backup()),
            UndoStage::AwaitConvertedExists => UndoAction::CheckExists(self.current_new()),
            UndoStage::AwaitRemove => UndoAction::RemoveFile(self.current_new()),
            UndoStage::AwaitCopy => UndoAction::CopyFile {
                from: self.current_backup(),
                to: self.current_original(),
            },
            UndoStage::AwaitFallbackExists => UndoAction::CheckExists(self.current_new()),
            UndoStage::AwaitFallbackRename => UndoAction::RenameFile {
                from: self.current_new(),
                to: self.fallback_target(),
            },
            UndoStage::AwaitExists => UndoAction::CheckExists(self.current_new()),
            UndoStage::AwaitRename => UndoAction::RenameFile {
                from: self.current_new(),
                to: self.current_original(),
            },
            UndoStage::AwaitClear => UndoAction::ClearLog,
            UndoStage::Done => match &self.clear_error {
                Some(e) => UndoAction::Finished(Err(e.clone())),
                None => UndoAction::Finished(Ok(self.summary())),
            },
        }
    }

    /// Gives up the current entry with `msg` and moves on.
    fn fail_and_continue(&mut self, msg: String) -> (a: UndoAction)
        requires
            old(self).wf(),
            old(self)@.remaining > 0,
            old(self).clear_error is None,
        ensures
            final(self).wf(),
            (final(self)@, a@) == begin_entry(entry_failed(old(self)@, msg@)),
    {
        self.fail_current(msg);
        proof {
            lemma_begin_entry_wf(self@);
        }
        self.begin_entry()
    }

    /// Counts the current entry as restored and moves on.
    fn restore_and_continue(&mut self) -> (a: UndoAction)
        requires
            old(self).wf(),
            old(self)@.remaining > 0,
            old(self).clear_error is None,
        ensures
            final(self).wf(),
            (final(self)@, a@) == begin_entry(entry_restored(old(self)@)),
    {
        let total = self.entries.len();
        assert(self.success + 1 <= total);
        self.success = self.success + 1;
        self.remaining = self.remaining - 1;
        proof {
            lemma_begin_entry_wf(self@);
        }
        self.begin_entry()
    }

    /// Advances the run with the outcome of the last action and returns the
    /// next action to perform (see `undo_next`).
    pub fn next(&mut self, event: UndoEvent) -> (a: UndoAction)
        requires
            old(self).wf(),
        ensures
            final(self).wf(),
            (final(self)@, a@) == undo_next(old(self)@, event@),
    {
        match self.stage {
            UndoStage::NotStarted => {
                proof {
                    lemma_begin_entry_wf(self@);
                }
                self.begin_entry()
            },
            UndoStage::AwaitBackupExists => match event {
                UndoEvent::Exists(true) => {
                    let p = self.current_new();
                    self.stage = UndoStage::AwaitConvertedExists;
                    UndoAction::CheckExists(p)
                },
                UndoEvent::Exists(false) => {
                    let o = self.current_original();
                    self.fail_and_continue(concat2("Backup copy not found for ", o.as_str()))
                },
                _ => self.pending(),
            },
            UndoStage::AwaitConvertedExists => match event {
                UndoEvent::Exists(true) => {
                    let p = self.current_new();
                    self.stage = UndoStage::AwaitRemove;
                    UndoAction::RemoveFile(p)
                },
                UndoEvent::Exists(false) => {
                    let from = self.current_backup();
                    let to = self.current_original();
                    self.stage = UndoStage::AwaitCopy;
                    UndoAction::CopyFile { from, to }
                },
                _ => self.pending(),
            },
            UndoStage::AwaitRemove => match event {
                UndoEvent::Completed(Ok(())) => {
                    let from = self.current_backup();
                    let to = self.current_original();
                    self.stage = UndoStage::AwaitCopy;
                    UndoAction::CopyFile { from, to }
                },
                UndoEvent::Completed(Err(x)) => {
                    let n = self.current_new();
                    let msg = concat4("Failed to remove converted file ", n.as_str(), ": ", x.as_str());
                    self.fail_and_continue(msg)
                },
                _ => self.pending(),
            },
            UndoStage::AwaitCopy => match event {
                UndoEvent::Completed(Ok(())) => self.restore_and_continue(),
                UndoEvent::Completed(Err(x)) => {
                    let o = self.current_original();
                    let msg = concat4("Failed to restore original from backup ", o.as_str(), ": ", x.as_str());
                    self.fail_and_continue(msg)
                },
                _ => self.pending(),
            },
            UndoStage::AwaitFallbackExists => match event {
                UndoEvent::Exists(true) => {
                    let from = self.current_new();
                    let to = self.fallback_target();
                    self.stage = UndoStage::AwaitFallbackRename;
                    UndoAction::RenameFile { from, to }
                },
                UndoEvent::Exists(false) => {
                    let n = self.current_new();
                    self.fail_and_continue(concat2("File not found: ", n.as_str()))
                },
                _ => self.pending(),
            },
            UndoStage::AwaitFallbackRename => match event {
                UndoEvent::Completed(Ok(())) => self.restore_and_continue(),
                UndoEvent::Completed(Err(x)) => {
                    let n = self.current_new();
                    let msg = concat4("Failed to partially restore converted file ", n.as_str(), ": ", x.as_str());
                    self.fail_and_continue(msg)
                },
                _ => self.pending(),
            },
            UndoStage::AwaitExists => match event {
                UndoEvent::Exists(true) => {
                    let from = self.current_new();
                    let to = self.current_original();
                    self.stage = UndoStage::AwaitRename;
                    UndoAction::RenameFile { from, to }
                },
                UndoEvent::Exists(false) => {
                    let n = self.current_new();
                    self.fail_and_continue(concat2("File not found: ", n.as_str()))
                },
                _ => self.pending(),
            },
            UndoStage::AwaitRename => match event {
                UndoEvent::Completed(Ok(())) => self.restore_and_continue(),
                UndoEvent::Completed(Err(x)) => {
                    let n = self.current_new();
                    let msg = concat4("Failed to restore ", n.as_str(), ": ", x.as_str());
                    self.fail_and_continue(msg)
                },
                _ => self.pending(),
            },
            UndoStage::AwaitClear => match event {
                UndoEvent::Completed(Ok(())) => {
                    self.stage = UndoStage::Done;
                    UndoAction::Finished(Ok(self.summary()))
                },
                UndoEvent::Completed(Err(x)) => {
                    let e = x.clone();
                    self.stage = UndoStage::Done;
                    self.clear_error = Some(x);
                    UndoAction::Finished(Err(e))
                },
                _ => self.pending(),
            },
            UndoStage::Done => self.pending(),
        }
    }
}

/// The file-system changes an undo run may ask for: each names the paths of
/// a log entry that passed the path checks, in the roles that entry gives them.
pub open spec fn undo_action_is_safe(entries: Seq<UndoEntryView>, a: UndoActionView) -> bool {
    match a {
        UndoActionView::RemoveFile(p) => exists|i: int|
            0 <= i < entries.len() && #[trigger] spec_is_safe_undo_pair(entries[i].original_path, entries[i].new_path)
                && entries[i].was_heic_conversion && p == entries[i].new_path,
        UndoActionView::CopyFile(from, to) => exists|i: int|
            0 <= i < entries.len() && #[trigger] spec_is_safe_undo_pair(entries[i].original_path, entries[i].new_path)
                && entries[i].backup_original_path == Some(from)
                && spec_is_safe_backup_path(entries[i].original_path, from)
                && to == entries[i].original_path,
        UndoActionView::RenameFile(from, to) => exists|i: int|
            0 <= i < entries.len() && #[trigger] spec_is_safe_undo_pair(entries[i].original_path, entries[i].new_path)
                && from == entries[i].new_path
                && (to == entries[i].original_path || (entries[i].was_heic_conversion
                    && entries[i].backup_original_path is None
                    && to == fallback_jpg_path(entries[i].original_path))),
        _ => true,
    }
}

/// Law: whatever the caller reports, an undo run only removes, copies or
/// renames files named by an entry of the log that passed the path checks
/// (`is_safe_undo_pair`, and `is_safe_backup_path` for a backup copy), and it
/// keeps every entry accounted for: restored, failed, or still to do. When
/// the run is done, restored and failed entries together are the whole log.
pub proof fn law_undo_step_is_safe_and_accounted(s: UndoRunView, ev: UndoEventView)
    requires
        undo_wf(s),
    ensures
        undo_wf(undo_next(s, ev).0),
        undo_next(s, ev).0.entries == s.entries,
        undo_action_is_safe(s.entries, undo_next(s, ev).1),
        undo_next(s, ev).0.stage is Done ==> undo_next(s, ev).0.success + undo_next(s, ev).0.errors.len()
            == s.entries.len(),
{
    let e = current_entry(s);
    let i = s.remaining - 1;
    match s.stage {
        UndoStage::NotStarted => {
            lemma_begin_entry_wf(s);
        },
        UndoStage::AwaitClear | UndoStage::Done => {},
        _ => {
            assert(spec_is_safe_undo_pair(s.entries[i].original_path, s.entries[i].new_path));
            lemma_begin_entry_wf(entry_failed(s, Seq::empty()));
            lemma_begin_entry_wf(entry_restored(s));
            match ev {
                UndoEventView::Completed(Err(x)) => {
                    lemma_begin_entry_wf(entry_failed(s, "Failed to remove converted file "@ + e.new_path + ": "@ + x));
                    lemma_begin_entry_wf(entry_failed(s, "Failed to restore original from backup "@ + e.original_path + ": "@ + x));
                    lemma_begin_entry_wf(entry_failed(s, "Failed to partially restore converted file "@ + e.new_path + ": "@ + x));
                    lemma_begin_entry_wf(entry_failed(s, "Failed to restore "@ + e.new_path + ": "@ + x));
                },
                _ => {
                    lemma_begin_entry_wf(entry_failed(s, "Backup copy not found for "@ + e.original_path));
                    lemma_begin_entry_wf(entry_failed(s, "File not found: "@ + e.new_path));
                },
            }
        },
    }
}

/// Law: the undo pair check does not depend on the order of the two paths.
pub proof fn law_safe_undo_pair_is_symmetric(a: Seq<char>, b: Seq<char>)
    ensures
        spec_is_safe_undo_pair(a, b) == spec_is_safe_undo_pair(b, a),
{
}

/// Law: an accepted backup copy is never the original file itself: it lies
/// one directory deeper, inside a `backup_*` directory next to the original.
pub proof fn law_safe_backup_is_not_the_original(original: Seq<char>, backup: Seq<char>)
    requires
        spec_is_safe_backup_path(original, backup),
    ensures
        std_path_components(backup) != std_path_components(original),
        std_path_components(backup).len() == std_path_components(original).len() + 1,
{
    let bp = std_path_components(backup);
    let op = std_path_components(original);
    let dir = bp.drop_last();
    assert(spec_file_name(op) is Some);
    assert(spec_parent(op) == Some(op.drop_last()));
    assert(spec_parent(dir) == Some(dir.drop_last()));
    assert(dir.drop_last().len() == op.drop_last().len());
}

/// The state in which an undo run over `entries` starts.
pub open spec fn undo_start(entries: Seq<UndoEntryView>) -> UndoRunView {
    UndoRunView {
        entries: entries,
        remaining: entries.len(),
        stage: UndoStage::NotStarted,
        success: 0,
        errors: Seq::empty(),
        clear_error: None,
    }
}

/// Law: with a backup, undoing a HEIC conversion restores the original file:
/// for a checked entry whose backup copy and converted file both exist, the
/// run removes the converted file and copies the backup back to the
/// original path; when that copy succeeds the entry counts as restored.
pub proof fn law_undo_restores_converted_file_from_backup(u: UndoEntryView)
    requires
        u.was_heic_conversion,
        spec_is_safe_undo_pair(u.original_path, u.new_path),
        u.backup_original_path matches Some(b) && spec_is_safe_backup_path(u.original_path, b),
    ensures
        ({
            let b = u.backup_original_path->0;
            let (s1, a1) = undo_next(undo_start(seq![u]), UndoEventView::Start);
            let (s2, a2) = undo_next(s1, UndoEventView::Exists(true));
            let (s3, a3) = undo_next(s2, UndoEventView::Exists(true));
            let (s4, a4) = undo_next(s3, UndoEventView::Completed(Ok(())));
            let (s5, a5) = undo_next(s4, UndoEventView::Completed(Ok(())));
            &&& a1 == UndoActionView::CheckExists(b)
            &&& a2 == UndoActionView::CheckExists(u.new_path)
            &&& a3 == UndoActionView::RemoveFile(u.new_path)
            &&& a4 == UndoActionView::CopyFile(b, u.original_path)
            &&& a5 == UndoActionView::ClearLog
            &&& s5.success == 1
            &&& s5.errors.len() == 0
        }),
{
    let s0 = undo_start(seq![u]);
    assert(current_entry(s0) == u);
    let (s1, a1) = undo_next(s0, UndoEventView::Start);
    assert(current_entry(s1) == u);
    let (s2, a2) = undo_next(s1, UndoEventView::Exists(true));
    assert(current_entry(s2) == u);
    let (s3, a3) = undo_next(s2, UndoEventView::Exists(true));
    assert(current_entry(s3) == u);
    let (s4, a4) = undo_next(s3, UndoEventView::Completed(Ok(())));
    assert(current_entry(s4) == u);
    assert(entry_restored(s4).remaining == 0);
}

/// Law: without a backup, undoing a HEIC conversion can only restore the
/// converted file under the original name with a `jpg` extension: for a
/// checked entry whose converted file exists, the run renames it there.
pub proof fn law_undo_without_backup_restores_jpg_name(u: UndoEntryView)
    requires
        u.was_heic_conversion,
        u.backup_original_path is None,
        spec_is_safe_undo_pair(u.original_path, u.new_path),
    ensures
        ({
            let (s1, a1) = undo_next(undo_start(seq![u]), UndoEventView::Start);
            let (s2, a2) = undo_next(s1, UndoEventView::Exists(true));
            &&& a1 == UndoActionView::CheckExists(u.new_path)
            &&& a2 == UndoActionView::RenameFile(u.new_path, fallback_jpg_path(u.original_path))
        }),
{
    let s0 = undo_start(seq![u]);
    assert(current_entry(s0) == u);
    let (s1, a1) = undo_next(s0, UndoEventView::Start);
    assert(current_entry(s1) == u);
}

/// Law: an entry that fails the path checks is never touched: the run
/// records an error for it and moves on without asking for any file check
/// or change concerning it.
pub proof fn law_unsafe_entries_are_skipped(u: UndoEntryView)
    requires
        !spec_is_safe_undo_pair(u.original_path, u.new_path),
    ensures
        ({
            let (s1, a1) = undo_next(undo_start(seq![u]), UndoEventView::Start);
            &&& a1 == UndoActionView::ClearLog
            &&& s1.errors == seq!["Unsafe paths in undo log entry for "@ + u.original_path]
            &&& s1.success == 0
        }),
{
    let s0 = undo_start(seq![u]);
    assert(current_entry(s0) == u);
    let s1 = entry_failed(s0, "Unsafe paths in undo log entry for "@ + u.original_path);
    assert(s1.remaining == 0);
    assert(begin_entry(s1).0.errors =~= seq!["Unsafe paths in undo log entry for "@ + u.original_path]);
}

/// Starting on the next entry keeps the count of restored entries and the
/// errors recorded so far.
proof fn lemma_begin_entry_keeps_counts(t: UndoRunView)
    ensures
        begin_entry(t).0.success == t.success,
        begin_entry(t).0.errors.len() >= t.errors.len(),
        begin_entry(t).0.errors.subrange(0, t.errors.len() as int) == t.errors,
        begin_entry(t).0.remaining <= t.remaining,
    decreases t.remaining,
{
    if t.remaining > 0 {
        let e = current_entry(t);
        let m1 = "Unsafe paths in undo log entry for "@ + e.original_path;
        let m2 = "Unsafe backup path in undo log entry for "@ + e.original_path;
        lemma_begin_entry_keeps_counts(entry_failed(t, m1));
        lemma_begin_entry_keeps_counts(entry_failed(t, m2));
        let r1 = begin_entry(entry_failed(t, m1)).0.errors;
        let r2 = begin_entry(entry_failed(t, m2)).0.errors;
        assert(r1.subrange(0, t.errors.len() as int) =~= r1.subrange(0, t.errors.len() + 1int).subrange(0, t.errors.len() as int));
        assert(r2.subrange(0, t.errors.len() as int) =~= r2.subrange(0, t.errors.len() + 1int).subrange(0, t.errors.len() as int));
        assert(t.errors.push(m1).subrange(0, t.errors.len() as int) =~= t.errors);
        assert(t.errors.push(m2).subrange(0, t.errors.len() as int) =~= t.errors);
    } else {
        assert(t.errors.subrange(0, t.errors.len() as int) =~= t.errors);
    }
}

/// Law: with a backup, a converted file's absence does not stop the
/// restore. For an entry of a HEIC conversion that passed the checks and
/// whose backup copy exists, the run asks whether the converted file exists;
/// whichever the answer, it then copies the backup over the original path
/// (after removing the converted file when it exists), and when that copy
/// succeeds the entry counts as restored, with no error recorded.
pub proof fn law_backup_restores_even_without_converted_file(s: UndoRunView, converted_exists: bool)
    requires
        undo_wf(s),
        s.stage is AwaitConvertedExists,
    ensures
        ({
            let e = current_entry(s);
            let b = e.backup_original_path->0;
            let (s2, a2) = undo_next(s, UndoEventView::Exists(converted_exists));
            let (s3, a3) = if converted_exists {
                undo_next(s2, UndoEventView::Completed(Ok(())))
            } else {
                (s2, a2)
            };
            let (s4, a4) = undo_next(s3, UndoEventView::Completed(Ok(())));
            &&& converted_exists ==> a2 == UndoActionView::RemoveFile(e.new_path)
            &&& a3 == UndoActionView::CopyFile(b, e.original_path)
            &&& spec_is_safe_backup_path(e.original_path, b)
            &&& s4.success == s.success + 1
            &&& s4.errors.len() >= s.errors.len()
            &&& s4.errors.subrange(0, s.errors.len() as int) == s.errors
            &&& s4.remaining < s.remaining
        }),
{
    let e = current_entry(s);
    let (s2, a2) = undo_next(s, UndoEventView::Exists(converted_exists));
    let s3 = if converted_exists { undo_next(s2, UndoEventView::Completed(Ok(()))).0 } else { s2 };
    assert(current_entry(s3) == e);
    assert(s3.stage is AwaitCopy);
    lemma_begin_entry_keeps_counts(entry_restored(s3));
}

} // verus!
