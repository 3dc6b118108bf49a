//! A model of the file system as a map from paths (taken by their
//! components, as std compares paths) to file contents, and laws about what
//! the undo run does to it when the caller performs each asked-for step
//! faithfully.

use vstd::prelude::*;

use crate::path::{spec_file_name, spec_parent, std_path_components, Part};
use crate::models::{FileEntryView, UndoEntryView};
use crate::offset::offset_target;
use crate::conflict::{in_same_directory, plain_file_target};
use crate::path::{plain_name, spec_is_normal_absolute_file_path, std_path_with_extension};
use crate::rename::{
    fallback_request_in_place, in_place_at, requested_path, targets_in_place,
    backup_lookup, cur, fallback_is_possible, law_rename_step_keeps_accounts, rename_next,
    rename_pending, rename_wf, rename_wf_core, run_len, start_entry, RenameActionView, RenameEventView,
    RenameRunView, RenameStage,
};
use crate::undo::{
    begin_entry, current_entry, lemma_begin_entry_never_finishes, entry_restored, spec_is_safe_backup_path, spec_is_safe_undo_pair,
    undo_next, undo_start, undo_summary, UndoActionView, UndoEventView, UndoRunView,
};

verus! {

/// The file a path names: its components.
pub open spec fn key(p: Seq<char>) -> Seq<Part> {
    std_path_components(p)
}

/// Error text the model reports for a missing source file.
pub open spec fn missing_file_message() -> Seq<char> {
    "No such file"@
}

/// The effect of an undo action on the file system `fs`, and the outcome the
/// caller reports for it: a check reads, a removal removes, a copy copies
/// the content, a rename moves the content (replacing the target, as
/// `std::fs::rename` does); clearing the log leaves the files alone.
pub open spec fn perform_undo_action(fs: Map<Seq<Part>, Seq<u8>>, a: UndoActionView) -> (
    Map<Seq<Part>, Seq<u8>>,
    UndoEventView,
) {
    match a {
        UndoActionView::CheckExists(p) => (fs, UndoEventView::Exists(fs.contains_key(key(p)))),
        UndoActionView::RemoveFile(p) => if fs.contains_key(key(p)) {
            (fs.remove(key(p)), UndoEventView::Completed(Ok(())))
        } else {
            (fs, UndoEventView::Completed(Err(missing_file_message())))
        },
        UndoActionView::CopyFile(from, to) => if fs.contains_key(key(from)) {
            (fs.insert(key(to), fs[key(from)]), UndoEventView::Completed(Ok(())))
        } else {
            (fs, UndoEventView::Completed(Err(missing_file_message())))
        },
        UndoActionView::RenameFile(from, to) => if fs.contains_key(key(from)) {
            (fs.remove(key(from)).insert(key(to), fs[key(from)]), UndoEventView::Completed(Ok(())))
        } else {
            (fs, UndoEventView::Completed(Err(missing_file_message())))
        },
        UndoActionView::ClearLog => (fs, UndoEventView::Completed(Ok(()))),
        UndoActionView::Finished(_) => (fs, UndoEventView::Completed(Ok(()))),
    }
}

/// Drives an undo run from state `s`, which asks for `a`, on the file system
/// `fs`: performs each asked-for action, reports its outcome, and stops when
/// the run is finished (or after `fuel` steps). Gives the last state, the
/// last action and the file system then.
pub open spec fn drive_undo(
    s: UndoRunView,
    a: UndoActionView,
    fs: Map<Seq<Part>, Seq<u8>>,
    fuel: nat,
) -> (UndoRunView, UndoActionView, Map<Seq<Part>, Seq<u8>>)
    decreases fuel,
{
    if fuel == 0 || a is Finished {
        (s, a, fs)
    } else {
        let (fs2, ev) = perform_undo_action(fs, a);
        let (s2, a2) = undo_next(s, ev);
        drive_undo(s2, a2, fs2, (fuel - 1) as nat)
    }
}

/// `after` is `before` with the rename run's move of entry `e` applied: the
/// original file existed and the new path was free; a plain rename moved the
/// content; a HEIC conversion put converted content at the new path and
/// removed the original (or failed to remove it), and the original's backup
/// copy existed with the same content.
pub open spec fn entry_done(
    before: Map<Seq<Part>, Seq<u8>>,
    e: UndoEntryView,
    after: Map<Seq<Part>, Seq<u8>>,
) -> bool {
    let o = key(e.original_path);
    let n = key(e.new_path);
    &&& before.contains_key(o)
    &&& !before.contains_key(n)
    &&& if e.was_heic_conversion {
        &&& e.backup_original_path matches Some(b) && before.contains_key(key(b))
            && before[key(b)] == before[o]
        &&& after == before.remove(o).insert(n, after[n]) || after == before.insert(n, after[n])
    } else {
        after == before.remove(o).insert(n, before[o])
    }
}

/// The undo checks pass for `e`: a safe pair, and for a conversion a safe
/// backup copy.
pub open spec fn undo_checks_pass(e: UndoEntryView) -> bool {
    &&& spec_is_safe_undo_pair(e.original_path, e.new_path)
    &&& e.was_heic_conversion ==> (e.backup_original_path matches Some(b)
        && spec_is_safe_backup_path(e.original_path, b))
}

/// `states[i + 1]` is `states[i]` after the move recorded by `entries[i]`,
/// and every entry passes the undo checks.
pub open spec fn run_history(entries: Seq<UndoEntryView>, states: Seq<Map<Seq<Part>, Seq<u8>>>) -> bool {
    &&& states.len() == entries.len() + 1
    &&& forall|i: int| 0 <= i < entries.len() ==> #[trigger] entry_done(states[i], entries[i], states[i + 1])
    &&& forall|i: int| 0 <= i < entries.len() ==> #[trigger] undo_checks_pass(entries[i])
}

proof fn lemma_pair_keys(e: UndoEntryView)
    requires
        undo_checks_pass(e),
    ensures
        key(e.original_path).len() == key(e.new_path).len(),
        e.was_heic_conversion ==> key(e.backup_original_path->0).len() == key(e.original_path).len() + 1,
{
    let op = key(e.original_path);
    let np = key(e.new_path);
    assert(spec_file_name(op) is Some);
    assert(spec_file_name(np) is Some);
    assert(spec_parent(op) == Some(op.drop_last()));
    assert(spec_parent(np) == Some(np.drop_last()));
    assert(op.drop_last().len() == np.drop_last().len());
    if e.was_heic_conversion {
        let bp = key(e.backup_original_path->0);
        let dir = bp.drop_last();
        assert(spec_parent(dir) == Some(dir.drop_last()));
        assert(dir.drop_last().len() == op.drop_last().len());
    }
}

proof fn lemma_undo_from(
    entries: Seq<UndoEntryView>,
    states: Seq<Map<Seq<Part>, Seq<u8>>>,
    s: UndoRunView,
    fuel: nat,
)
    requires
        run_history(entries, states),
        s.entries == entries,
        s.remaining <= entries.len(),
        s.success + s.remaining == entries.len(),
        s.errors.len() == 0,
        s.clear_error is None,
        fuel >= 4 * s.remaining + 1,
    ensures
        ({
            let (s1, a1) = begin_entry(s);
            let r = drive_undo(s1, a1, states[s.remaining as int], fuel);
            &&& r.1 == UndoActionView::Finished(Ok(undo_summary(entries.len(), Seq::empty())))
            &&& r.2 == states[0]
        }),
    decreases s.remaining,
{
    let k = s.remaining as int;
    let fs = states[k];
    if k == 0 {
        let (s1, a1) = begin_entry(s);
        assert(a1 == UndoActionView::ClearLog);
        let (s2, a2) = undo_next(s1, UndoEventView::Completed(Ok(())));
        assert(s.errors =~= Seq::<Seq<char>>::empty());
        assert(a2 == UndoActionView::Finished(Ok(undo_summary(entries.len(), Seq::empty()))));
        assert(drive_undo(s2, a2, fs, (fuel - 1) as nat) == (s2, a2, fs));
    } else {
        let i = k - 1;
        let e = entries[i];
        let before = states[i];
        assert(entry_done(states[i], entries[i], states[i + 1]));
        assert(undo_checks_pass(entries[i]));
        lemma_pair_keys(e);
        assert(current_entry(s) == e);
        let o = key(e.original_path);
        let n = key(e.new_path);
        assert(fs.contains_key(n));
        let next = entry_restored(s);
        if e.was_heic_conversion {
            let b = e.backup_original_path->0;
            let kb = key(b);
            let (s1, a1) = begin_entry(s);
            assert(a1 == UndoActionView::CheckExists(b));
            assert(fs.contains_key(kb));
            let (s2, a2) = undo_next(s1, UndoEventView::Exists(true));
            assert(a2 == UndoActionView::CheckExists(e.new_path));
            let (s3, a3) = undo_next(s2, UndoEventView::Exists(true));
            assert(a3 == UndoActionView::RemoveFile(e.new_path));
            let fs3 = fs.remove(n);
            let (s4, a4) = undo_next(s3, UndoEventView::Completed(Ok(())));
            assert(a4 == UndoActionView::CopyFile(b, e.original_path));
            assert(fs3.contains_key(kb));
            assert(fs3[kb] == before[o]);
            let fs4 = fs3.insert(o, fs3[kb]);
            assert(fs4 =~= before);
            let (s5, a5) = undo_next(s4, UndoEventView::Completed(Ok(())));
            assert(s4.remaining == s.remaining);
            assert((s5, a5) == begin_entry(entry_restored(s4)));
            lemma_undo_from(entries, states, entry_restored(s4), (fuel - 4) as nat);
            assert(perform_undo_action(fs, a1) == (fs, UndoEventView::Exists(true)));
            assert(perform_undo_action(fs, a2) == (fs, UndoEventView::Exists(true)));
            assert(perform_undo_action(fs, a3) == (fs3, UndoEventView::Completed(Ok(()))));
            assert(perform_undo_action(fs3, a4) == (fs4, UndoEventView::Completed(Ok(()))));
            assert(drive_undo(s4, a4, fs3, (fuel - 3) as nat) == drive_undo(s5, a5, fs4, (fuel - 4) as nat));
            assert(drive_undo(s3, a3, fs, (fuel - 2) as nat) == drive_undo(s4, a4, fs3, (fuel - 3) as nat));
            assert(drive_undo(s2, a2, fs, (fuel - 1) as nat) == drive_undo(s3, a3, fs, (fuel - 2) as nat));
            assert(drive_undo(s1, a1, fs, fuel) == drive_undo(s2, a2, fs, (fuel - 1) as nat));
        } else {
            let (s1, a1) = begin_entry(s);
            assert(a1 == UndoActionView::CheckExists(e.new_path));
            let (s2, a2) = undo_next(s1, UndoEventView::Exists(true));
            assert(a2 == UndoActionView::RenameFile(e.new_path, e.original_path));
            let fs2 = fs.remove(n).insert(o, fs[n]);
            assert(fs2 =~= before);
            let (s3, a3) = undo_next(s2, UndoEventView::Completed(Ok(())));
            assert((s3, a3) == begin_entry(entry_restored(s2)));
            lemma_undo_from(entries, states, entry_restored(s2), (fuel - 2) as nat);
            assert(perform_undo_action(fs, a1) == (fs, UndoEventView::Exists(true)));
            assert(perform_undo_action(fs, a2) == (fs2, UndoEventView::Completed(Ok(()))));
            assert(drive_undo(s2, a2, fs, (fuel - 1) as nat) == drive_undo(s3, a3, fs2, (fuel - 2) as nat));
            assert(drive_undo(s1, a1, fs, fuel) == drive_undo(s2, a2, fs, (fuel - 1) as nat));
        }
    }
}

/// Law: undo restores a whole rename run. Let `states[0]` be the file
/// system before the run and `states[i + 1]` the one after the move
/// recorded by log entry `i`, for a log of any length whose entries pass the
/// undo checks, where every conversion has its backup copy. When the caller
/// performs each step the undo run asks for, starting on the file system
/// the run left behind, the run finishes with "Successfully restored n
/// files" (n the length of the log) and the file system is exactly
/// `states[0]` again: every moved file is back at its original path with its
/// original content, including chains in which one file took another's
/// former name.
pub proof fn law_undo_restores_the_whole_run(
    entries: Seq<UndoEntryView>,
    states: Seq<Map<Seq<Part>, Seq<u8>>>,
)
    requires
        run_history(entries, states),
    ensures
        ({
            let (s1, a1) = undo_next(undo_start(entries), UndoEventView::Start);
            let r = drive_undo(s1, a1, states[entries.len() as int], 4 * entries.len() + 1);
            &&& r.1 == UndoActionView::Finished(Ok(undo_summary(entries.len(), Seq::empty())))
            &&& r.2 == states[0]
        }),
{
    lemma_undo_from(entries, states, undo_start(entries), 4 * entries.len() + 1);
}

/// Law: an undo run finishes successfully only right after the log was
/// cleared, so the same rename run cannot be undone twice.
pub proof fn law_undo_finishes_only_after_clearing_the_log(s: UndoRunView, ev: UndoEventView)
    requires
        !(s.stage is Done),
        undo_next(s, ev).1 is Finished,
    ensures
        s.stage is AwaitClear,
        ev is Completed,
{
    assert forall|t: UndoRunView| !(#[trigger] begin_entry(t).1 is Finished) by {
        lemma_begin_entry_never_finishes(t);
    }
}


/// The caller performed the rename action `a` on `fs`, reported `ev`, and
/// left `after`: a collision is resolved to a path that does not exist; a
/// rename that succeeded moved the file (one that failed changed nothing); a
/// conversion that succeeded wrote the target; a removal removed; a timestamp
/// change that writes EXIF dates may rewrite that file's content, one that
/// does not leaves the contents alone; the other steps change no file.
pub open spec fn rename_performed(
    fs: Map<Seq<Part>, Seq<u8>>,
    a: RenameActionView,
    ev: RenameEventView,
    after: Map<Seq<Part>, Seq<u8>>,
) -> bool {
    match a {
        RenameActionView::ResolveConflict(_) => after == fs && (ev matches RenameEventView::Resolved(Ok(p))
            ==> !fs.contains_key(key(p))),
        RenameActionView::RenameFile(from, to) => match ev {
            RenameEventView::Completed(Ok(())) => fs.contains_key(key(from)) && after == fs.remove(
                key(from),
            ).insert(key(to), fs[key(from)]),
            _ => after == fs,
        },
        RenameActionView::ConvertHeic(_, to, _) => match ev {
            RenameEventView::Completed(Ok(())) => after == fs.insert(key(to), after[key(to)]),
            _ => after == fs,
        },
        RenameActionView::RemoveFile(p) => match ev {
            RenameEventView::Completed(Ok(())) => after == fs.remove(key(p)),
            _ => after == fs,
        },
        RenameActionView::ApplyOffset(p, _, write_exif) => if write_exif {
            after == fs.insert(key(p), after[key(p)]) && fs.contains_key(key(p)) == after.contains_key(key(p))
        } else {
            after == fs
        },
        _ => after == fs,
    }
}

/// The entries name pairwise different files.
pub open spec fn distinct_files(entries: Seq<FileEntryView>) -> bool {
    forall|i: int, j: int|
        0 <= i < entries.len() && 0 <= j < entries.len() && i != j ==> key(#[trigger] entries[i].path)
            != key(#[trigger] entries[j].path)
}

/// The backup recorded for entry `j`.
pub open spec fn backup_of(s: RenameRunView, j: int) -> Seq<char> {
    backup_lookup(s.backups, s.entries[j].path)->0
}

/// When HEIC files are converted, each of them has a recorded backup copy,
/// which is none of the files being renamed.
pub open spec fn backups_ready(s: RenameRunView) -> bool {
    forall|j: int|
        0 <= j < run_len(s) && s.convert_heic && #[trigger] s.entries[j].is_heic ==> {
            &&& backup_lookup(s.backups, s.entries[j].path) is Some
            &&& forall|i: int| 0 <= i < s.entries.len() ==> key(backup_of(s, j)) != key(#[trigger] s.entries[i].path)
        }
}

/// The undo entry the run records for the file it has just moved.
pub open spec fn moved_entry(s: RenameRunView) -> UndoEntryView {
    UndoEntryView {
        original_path: cur(s).path,
        new_path: s.target,
        was_heic_conversion: s.converted,
        backup_original_path: backup_lookup(s.backups, cur(s).path),
    }
}

/// The recorded moves replay the file system from `states[0]` to
/// `states.last()`: `states[i + 1]` is `states[i]` after the move of
/// `entries[i]`.
pub open spec fn moves_replay(entries: Seq<UndoEntryView>, states: Seq<Map<Seq<Part>, Seq<u8>>>) -> bool {
    &&& states.len() == entries.len() + 1
    &&& forall|i: int| 0 <= i < entries.len() ==> #[trigger] entry_done(states[i], entries[i], states[i + 1])
}

/// How the file system `fs` relates to `last`, the one before the current
/// entry is handled: the same, except right after a conversion (the target
/// is written) and after a move whose times are still to shift.
pub open spec fn stage_fs(s: RenameRunView, last: Map<Seq<Part>, Seq<u8>>, fs: Map<Seq<Part>, Seq<u8>>) -> bool {
    match s.stage {
        RenameStage::AwaitMovedOffset => entry_done(last, moved_entry(s), fs),
        RenameStage::AwaitRemoveOriginal => fs == last.insert(key(s.target), fs[key(s.target)]),
        _ => fs == last,
    }
}

/// What holds along a rename run without EXIF writes of shifted dates,
/// performed on `fs` from `f0`: its undo log replays from `f0` to
/// `states.last()`, the file system before the current entry is handled; the
/// files still to handle are there, with their backup copies when they are
/// to be converted; and the target of a pending move is free.
pub open spec fn rename_replay_inv(
    s: RenameRunView,
    f0: Map<Seq<Part>, Seq<u8>>,
    states: Seq<Map<Seq<Part>, Seq<u8>>>,
    fs: Map<Seq<Part>, Seq<u8>>,
) -> bool {
    let last = states.last();
    &&& rename_wf(s)
    &&& !(s.has_exiftool && s.offset_seconds != 0)
    &&& distinct_files(s.entries)
    &&& backups_ready(s)
    &&& moves_replay(s.undo, states)
    &&& states[0] == f0
    &&& forall|j: int| s.index <= j < run_len(s) ==> last.contains_key(key(#[trigger] s.entries[j].path))
    &&& forall|j: int|
        s.index <= j < run_len(s) && s.convert_heic && #[trigger] s.entries[j].is_heic ==> last.contains_key(
            key(backup_of(s, j)),
        ) && last[key(backup_of(s, j))] == last[key(s.entries[j].path)]
    &&& stage_fs(s, last, fs)
    &&& (s.stage is AwaitRename || s.stage is AwaitConvert || s.stage is AwaitRemoveOriginal
        || s.stage is AwaitFallbackRename) ==> !last.contains_key(key(s.target))
}

/// The states after a rename step: one more when the step recorded a move.
pub open spec fn replay_states(
    s: RenameRunView,
    ev: RenameEventView,
    states: Seq<Map<Seq<Part>, Seq<u8>>>,
    after: Map<Seq<Part>, Seq<u8>>,
) -> Seq<Map<Seq<Part>, Seq<u8>>> {
    if rename_next(s, ev).0.undo.len() > s.undo.len() {
        states.push(after)
    } else {
        states
    }
}

/// Law: a rename run starts in a replayable state on `f0`, given entries
/// that name different existing files, and, when HEIC files are converted,
/// a backup copy of each of them with the same content, apart from the
/// files being renamed (and requested paths as `RenameRun::new` computes
/// them, `targets_in_place`).
pub proof fn law_rename_run_starts_replayable(s: RenameRunView, f0: Map<Seq<Part>, Seq<u8>>)
    requires
        s.index == 0,
        s.stage is Progress,
        s.success == 0,
        s.errors.len() == 0,
        s.undo.len() == 0,
        !(s.has_exiftool && s.offset_seconds != 0),
        distinct_files(s.entries),
        backups_ready(s),
        targets_in_place(s),
        forall|j: int| 0 <= j < run_len(s) ==> f0.contains_key(key(#[trigger] s.entries[j].path)),
        forall|j: int|
            0 <= j < run_len(s) && s.convert_heic && #[trigger] s.entries[j].is_heic ==> f0.contains_key(
                key(backup_of(s, j)),
            ) && f0[key(backup_of(s, j))] == f0[key(s.entries[j].path)],
    ensures
        rename_replay_inv(start_entry(s).0, f0, seq![f0], f0),
        rename_checks_inv(start_entry(s).0),
{
}

/// Law: the action a rename step returns is the one the new state waits on,
/// so performing the returned actions is performing `rename_pending`.
pub proof fn law_rename_action_is_pending(s: RenameRunView, ev: RenameEventView)
    requires
        rename_wf(s),
    ensures
        rename_next(s, ev).1 == rename_pending(rename_next(s, ev).0),
{
}

proof fn lemma_entry_done_frame(
    before: Map<Seq<Part>, Seq<u8>>,
    e: UndoEntryView,
    after: Map<Seq<Part>, Seq<u8>>,
    k: Seq<Part>,
)
    requires
        entry_done(before, e, after),
        before.contains_key(k),
        k != key(e.original_path),
    ensures
        after.contains_key(k),
        after[k] == before[k],
{
}

/// After the current entry's move is recorded, the next entries still find
/// their files and backups.
proof fn lemma_record_keeps_inv(
    s: RenameRunView,
    f0: Map<Seq<Part>, Seq<u8>>,
    states: Seq<Map<Seq<Part>, Seq<u8>>>,
    after: Map<Seq<Part>, Seq<u8>>,
)
    requires
        s.index < run_len(s),
        rename_wf_core(s),
        distinct_files(s.entries),
        backups_ready(s),
        moves_replay(s.undo, states),
        forall|j: int| s.index <= j < run_len(s) ==> states.last().contains_key(key(#[trigger] s.entries[j].path)),
        forall|j: int|
            s.index <= j < run_len(s) && s.convert_heic && #[trigger] s.entries[j].is_heic ==> states.last().contains_key(
                key(backup_of(s, j)),
            ) && states.last()[key(backup_of(s, j))] == states.last()[key(s.entries[j].path)],
        entry_done(states.last(), moved_entry(s), after),
    ensures
        moves_replay(s.undo.push(moved_entry(s)), states.push(after)),
        forall|j: int| s.index + 1 <= j < run_len(s) ==> after.contains_key(key(#[trigger] s.entries[j].path)),
        forall|j: int|
            s.index + 1 <= j < run_len(s) && s.convert_heic && #[trigger] s.entries[j].is_heic ==> after.contains_key(
                key(backup_of(s, j)),
            ) && after[key(backup_of(s, j))] == after[key(s.entries[j].path)],
{
    let last = states.last();
    let m = moved_entry(s);
    let u2 = s.undo.push(m);
    let st2 = states.push(after);
    assert forall|i: int| 0 <= i < u2.len() implies #[trigger] entry_done(st2[i], u2[i], st2[i + 1]) by {
        if i < s.undo.len() {
            assert(st2[i] == states[i]);
            assert(st2[i + 1] == states[i + 1]);
            assert(u2[i] == s.undo[i]);
        } else {
            assert(st2[i] == last);
        }
    }
    assert forall|j: int| s.index + 1 <= j < run_len(s) implies after.contains_key(key(#[trigger] s.entries[j].path)) by {
        assert(key(s.entries[j].path) != key(s.entries[s.index as int].path));
        lemma_entry_done_frame(last, m, after, key(s.entries[j].path));
    }
    assert forall|j: int|
        s.index + 1 <= j < run_len(s) && s.convert_heic && #[trigger] s.entries[j].is_heic implies after.contains_key(
            key(backup_of(s, j)),
        ) && after[key(backup_of(s, j))] == after[key(s.entries[j].path)] by {
        assert(key(s.entries[j].path) != key(s.entries[s.index as int].path));
        assert(key(backup_of(s, j)) != key(s.entries[s.index as int].path));
        lemma_entry_done_frame(last, m, after, key(s.entries[j].path));
        lemma_entry_done_frame(last, m, after, key(backup_of(s, j)));
    }
}

/// Law: every step of a rename run without EXIF writes of shifted dates
/// keeps the run replayable, when the caller performs the asked-for action
/// on the file system: the undo log, with one more state per recorded move,
/// still replays from `f0`. With `law_undo_restores_the_whole_run`, the undo
/// of a finished run whose log passes the undo checks restores `f0`.
pub proof fn law_rename_step_replays_moves(
    s: RenameRunView,
    ev: RenameEventView,
    f0: Map<Seq<Part>, Seq<u8>>,
    states: Seq<Map<Seq<Part>, Seq<u8>>>,
    fs: Map<Seq<Part>, Seq<u8>>,
    after: Map<Seq<Part>, Seq<u8>>,
)
    requires
        rename_replay_inv(s, f0, states, fs),
        fallback_is_possible(s, ev),
        rename_performed(fs, rename_pending(s), ev, after),
    ensures
        rename_replay_inv(rename_next(s, ev).0, f0, replay_states(s, ev, states, after), after),
{
    law_rename_step_keeps_accounts(s, ev);
    let last = states.last();
    let (s2, a2) = rename_next(s, ev);
    let e = cur(s);
    let o = key(e.path);
    let n = key(s.target);
    let moving = match s.stage {
        RenameStage::AwaitRename | RenameStage::AwaitFallbackRename | RenameStage::AwaitRemoveOriginal => ev
            is Completed,
        RenameStage::AwaitMovedOffset => ev is Completed,
        _ => false,
    };
    if moving && s.stage is AwaitMovedOffset {
        lemma_record_keeps_inv(s, f0, states, after);
    } else if moving && s.stage is AwaitRemoveOriginal {
        let s1 = RenameRunView { converted: true, ..s };
        let i = s.index as int;
        assert(s.entries[i].is_heic && s.convert_heic);
        assert(last.contains_key(key(backup_of(s, i))));
        assert(last.contains_key(key(s.entries[i].path)));
        if ev matches RenameEventView::Completed(Ok(())) {
            assert(after =~= last.remove(o).insert(n, after[n]));
        } else {
            assert(after =~= last.insert(n, after[n]));
        }
        assert(entry_done(last, moved_entry(s1), after));
        if offset_target(e.datetime, s.offset_seconds) is None {
            let s1e = match ev {
                RenameEventView::Completed(Err(x)) => RenameRunView {
                    converted: true,
                    errors: s.errors.push(crate::rename::error_for(s, "Conversion succeeded but failed to remove original: "@ + x)),
                    ..s
                },
                _ => s1,
            };
            assert(moved_entry(s1e) == moved_entry(s1));
            lemma_record_keeps_inv(s1e, f0, states, after);
        }
    } else if moving && ev matches RenameEventView::Completed(Ok(())) {
        let s1 = RenameRunView { converted: false, ..s };
        assert(entry_done(last, moved_entry(s1), after));
        if offset_target(e.datetime, s.offset_seconds) is None {
            if s.stage is AwaitFallbackRename {
                let s1e = RenameRunView {
                    converted: false,
                    errors: s.errors.push(
                        crate::rename::error_for(
                            s,
                            "HEIC\u{2192}JPG failed: "@ + s.convert_error + ", renamed without conversion"@,
                        ),
                    ),
                    ..s
                };
                assert(moved_entry(s1e) == moved_entry(s1));
                lemma_record_keeps_inv(s1e, f0, states, after);
            } else {
                lemma_record_keeps_inv(s1, f0, states, after);
            }
        }
    }
}

/// The collision on the path the run waits on, if any, was resolved, if at
/// all, to a file next to it with a plain name, when that path is a file with
/// a plain name (what `resolve_conflict` ensures).
pub open spec fn resolution_in_place(s: RenameRunView, ev: RenameEventView) -> bool {
    match (rename_pending(s), ev) {
        (RenameActionView::ResolveConflict(t), RenameEventView::Resolved(Ok(p))) => plain_file_target(t)
            ==> in_same_directory(t, p) && plain_file_target(p),
        _ => true,
    }
}

/// Every entry has a normal absolute path and a plain new name; each HEIC
/// file to convert has a plain extension and a backup copy that the undo
/// run accepts.
pub open spec fn inputs_in_place(s: RenameRunView) -> bool {
    forall|j: int|
        0 <= j < run_len(s) ==> #[trigger] in_place_at(s, j) && (s.convert_heic && s.entries[j].is_heic ==> {
            &&& plain_name(s.entries[j].extension)
            &&& spec_is_safe_backup_path(s.entries[j].path, backup_of(s, j))
        })
}

/// Every recorded entry passes the undo checks, and a file the run has
/// resolved a target for is moved to a file next to it with a plain name.
pub open spec fn rename_checks_inv(s: RenameRunView) -> bool {
    &&& forall|i: int| 0 <= i < s.undo.len() ==> #[trigger] undo_checks_pass(s.undo[i])
    &&& (s.stage is AwaitRename || s.stage is AwaitConvert || s.stage is AwaitRemoveOriginal
        || s.stage is AwaitMovedOffset || s.stage is AwaitFallbackResolve || s.stage is AwaitFallbackRename)
        ==> in_same_directory(cur(s).path, s.target) && plain_file_target(s.target)
    &&& s.stage is AwaitMovedOffset && s.converted ==> cur(s).is_heic && s.convert_heic
}

proof fn lemma_same_directory_chain(a: Seq<char>, b: Seq<char>, c: Seq<char>)
    requires
        in_same_directory(a, b),
        in_same_directory(b, c),
    ensures
        in_same_directory(a, c),
{
}

proof fn lemma_recorded_entry_passes(s: RenameRunView, converted: bool)
    requires
        rename_wf_core(s),
        s.index < run_len(s),
        inputs_in_place(s),
        backups_ready(s),
        in_same_directory(cur(s).path, s.target),
        converted ==> cur(s).is_heic && s.convert_heic,
    ensures
        undo_checks_pass(moved_entry(RenameRunView { converted: converted, ..s })),
{
    let i = s.index as int;
    assert(in_place_at(s, i));
    if converted {
        assert(s.entries[i].is_heic);
    }
}

/// Law: the undo log of a rename run passes the undo checks. For a run whose
/// entries have normal absolute paths and plain new names (and, for the HEIC
/// files it converts, plain extensions and backup copies the undo run
/// accepts), every step keeps each recorded entry passing the undo checks,
/// when each collision is resolved as `resolve_and_next` resolves it.
pub proof fn law_rename_step_keeps_undo_checks(s: RenameRunView, ev: RenameEventView)
    requires
        rename_wf(s),
        fallback_is_possible(s, ev),
        inputs_in_place(s),
        backups_ready(s),
        rename_checks_inv(s),
        fallback_request_in_place(s),
        resolution_in_place(s, ev),
    ensures
        rename_checks_inv(rename_next(s, ev).0),
{
    law_rename_step_keeps_accounts(s, ev);
    let (s2, a2) = rename_next(s, ev);
    let i = s.index as int;
    if s.index < run_len(s) {
        assert(in_place_at(s, i));
    }
    match s.stage {
        RenameStage::AwaitResolve => {
            if let RenameEventView::Resolved(Ok(f)) = ev {
                let t = requested_path(s);
                assert(plain_file_target(t) && in_same_directory(cur(s).path, t));
                lemma_same_directory_chain(cur(s).path, t, f);
            }
        },
        RenameStage::AwaitFallbackResolve => {
            if let RenameEventView::Resolved(Ok(f)) = ev {
                let t = std_path_with_extension(s.target, cur(s).extension);
                lemma_same_directory_chain(cur(s).path, s.target, t);
                lemma_same_directory_chain(cur(s).path, t, f);
            }
        },
        _ => {},
    }
    if s2.undo.len() > s.undo.len() {
        let m = s2.undo.last();
        let c = match s.stage {
            RenameStage::AwaitRemoveOriginal => true,
            RenameStage::AwaitMovedOffset => s.converted,
            _ => false,
        };
        assert(m == moved_entry(RenameRunView { converted: c, ..s }));
        lemma_recorded_entry_passes(s, c);
        assert forall|k: int| 0 <= k < s2.undo.len() implies #[trigger] undo_checks_pass(s2.undo[k]) by {
            if k < s.undo.len() {
                assert(s2.undo[k] == s.undo[k]);
            }
        }
    }
}

/// Law: rename, then undo. A finished rename run without EXIF writes of
/// shifted dates, performed on the file system from `f0`, whose entries have
/// normal absolute paths and plain new names, leaves a log that the undo
/// run fully reverses: performing its steps on the file system the rename
/// left gives back exactly `f0`, with "Successfully restored n files".
pub proof fn law_undo_reverses_a_finished_rename_run(
    s: RenameRunView,
    f0: Map<Seq<Part>, Seq<u8>>,
    states: Seq<Map<Seq<Part>, Seq<u8>>>,
    fs: Map<Seq<Part>, Seq<u8>>,
)
    requires
        rename_replay_inv(s, f0, states, fs),
        rename_checks_inv(s),
        s.stage is Done,
    ensures
        ({
            let (u1, a1) = undo_next(undo_start(s.undo), UndoEventView::Start);
            let r = drive_undo(u1, a1, fs, 4 * s.undo.len() + 1);
            &&& r.1 == UndoActionView::Finished(Ok(undo_summary(s.undo.len(), Seq::empty())))
            &&& r.2 == f0
        }),
{
    assert(run_history(s.undo, states));
    law_undo_restores_the_whole_run(s.undo, states);
}

} // verus!
