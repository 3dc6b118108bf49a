//! Planning the backup copies made before a rename run: one
//! `backup_<timestamp>` directory next to each group of files that share a
//! parent directory, holding a copy of each file under its own name.

use vstd::prelude::*;

use crate::dates::{format_date_time, lemma_stamp_text_safe, stamp_text, DateTimeFields};
use crate::models::{FileEntry, FileEntryView, BACKUP_STAMP_FORMAT};
use crate::path::{
    file_name, parent_len, parts_prefix_equal, parts_view, path_join, path_parent, path_parts,
    spec_file_name, spec_parent, std_path_components, std_path_join, std_path_parent, Part,
    PathPart, plain_name, spec_is_normal_absolute_file_path, std_path_is_absolute,
};
use crate::text::{concat2, concat3};
use crate::undo::{seq_starts_with, spec_is_safe_backup_path};
use vstd::string::*;

verus! {

/// The key under which a file is grouped: the components of its parent
/// directory, or of `.` when it has none.
pub open spec fn group_key(path: Seq<char>) -> Seq<Part> {
    match spec_parent(std_path_components(path)) {
        Some(p) => p,
        None => std_path_components("."@),
    }
}

/// The parent directory text of a file, or `.`.
pub open spec fn parent_text(path: Seq<char>) -> Seq<char> {
    match std_path_parent(path) {
        Some(p) => p,
        None => "."@,
    }
}

/// A group of files with a common parent: the parent's key, the parent's text
/// as first seen, and the indices of the member files in order.
pub struct GroupView {
    pub key: Seq<Part>,
    pub dir: Seq<char>,
    pub members: Seq<int>,
}

/// Index of the group with key `k`, or -1.
pub open spec fn find_group(gs: Seq<GroupView>, k: Seq<Part>) -> int
    decreases gs.len(),
{
    if gs.len() == 0 {
        -1
    } else if find_group(gs.drop_last(), k) >= 0 {
        find_group(gs.drop_last(), k)
    } else if gs.last().key == k {
        gs.len() - 1
    } else {
        -1
    }
}

/// The groups of the first `n` paths, in order of first appearance.
pub open spec fn groups_upto(paths: Seq<Seq<char>>, n: nat) -> Seq<GroupView>
    decreases n,
{
    if n == 0 {
        Seq::empty()
    } else {
        let gs = groups_upto(paths, (n - 1) as nat);
        let p = paths[n - 1];
        let j = find_group(gs, group_key(p));
        if j >= 0 {
            gs.update(j, GroupView { members: gs[j].members.push(n - 1), ..gs[j] })
        } else {
            gs.push(GroupView { key: group_key(p), dir: parent_text(p), members: seq![n - 1] })
        }
    }
}

/// One planned copy.
pub struct BackupCopy {
    pub source: String,
    pub destination: String,
    pub filename: String,
}

/// One backup directory to create, and the copies to make into it.
pub struct BackupGroup {
    pub directory: String,
    pub copies: Vec<BackupCopy>,
}

/// The whole backup: directories and copies in order, and the error that
/// stops it, if any, after the planned steps.
pub struct BackupPlan {
    pub groups: Vec<BackupGroup>,
    pub failure: Option<String>,
}

/// Mathematical value of a `BackupCopy`.
pub struct BackupCopyView {
    pub source: Seq<char>,
    pub destination: Seq<char>,
    pub filename: Seq<char>,
}

/// Mathematical value of a `BackupGroup`.
pub struct BackupGroupView {
    pub directory: Seq<char>,
    pub copies: Seq<BackupCopyView>,
}

impl View for BackupCopy {
    type V = BackupCopyView;

    open spec fn view(&self) -> BackupCopyView {
        BackupCopyView { source: self.source@, destination: self.destination@, filename: self.filename@ }
    }
}

impl View for BackupGroup {
    type V = BackupGroupView;

    open spec fn view(&self) -> BackupGroupView {
        BackupGroupView { directory: self.directory@, copies: self.copies@.map_values(|c: BackupCopy| c@) }
    }
}

/// The backup directory of a group.
pub open spec fn backup_directory(dir: Seq<char>, timestamp: Seq<char>) -> Seq<char> {
    std_path_join(dir, "backup_"@ + timestamp)
}

/// The error when a file's name cannot be determined.
pub open spec fn no_file_name_message(path: Seq<char>) -> Seq<char> {
    "Failed to resolve filename for "@ + path
}

/// The copies of the first `m` members of a group into `bdir`, stopping at the
/// first member without a file name, with that member's error.
pub open spec fn copies_upto(
    entries: Seq<FileEntryView>,
    members: Seq<int>,
    bdir: Seq<char>,
    m: nat,
) -> (Seq<BackupCopyView>, Option<Seq<char>>)
    decreases m,
{
    if m == 0 {
        (Seq::empty(), None)
    } else {
        let (cs, f) = copies_upto(entries, members, bdir, (m - 1) as nat);
        if f is Some {
            (cs, f)
        } else {
            let e = entries[members[m - 1]];
            match spec_file_name(std_path_components(e.path)) {
                Some(name) => (
                    cs.push(BackupCopyView { source: e.path, destination: std_path_join(bdir, name), filename: e.filename }),
                    None,
                ),
                None => (cs, Some(no_file_name_message(e.path))),
            }
        }
    }
}

/// The plan for the first `n` groups, stopping after the group that fails.
pub open spec fn plan_upto(
    entries: Seq<FileEntryView>,
    gs: Seq<GroupView>,
    timestamp: Seq<char>,
    n: nat,
) -> (Seq<BackupGroupView>, Option<Seq<char>>)
    decreases n,
{
    if n == 0 {
        (Seq::empty(), None)
    } else {
        let (ps, f) = plan_upto(entries, gs, timestamp, (n - 1) as nat);
        if f is Some {
            (ps, f)
        } else {
            let g = gs[n - 1];
            let bdir = backup_directory(g.dir, timestamp);
            let (cs, f2) = copies_upto(entries, g.members, bdir, g.members.len());
            (ps.push(BackupGroupView { directory: bdir, copies: cs }), f2)
        }
    }
}

/// The backup plan for `entries` with the given timestamp text.
pub open spec fn backup_plan(entries: Seq<FileEntryView>, timestamp: Seq<char>) -> (Seq<BackupGroupView>, Option<Seq<char>>) {
    let gs = groups_upto(entries.map_values(|e: FileEntryView| e.path), entries.len());
    plan_upto(entries, gs, timestamp, gs.len())
}

struct Group {
    key: Vec<PathPart>,
    dir: String,
    members: Vec<usize>,
}

impl View for Group {
    type V = GroupView;

    closed spec fn view(&self) -> GroupView {
        GroupView {
            key: parts_view(self.key@),
            dir: self.dir@,
            members: self.members@.map_values(|u: usize| u as int),
        }
    }
}

spec fn groups_view(gs: Seq<Group>) -> Seq<GroupView> {
    gs.map_values(|g: Group| g@)
}

fn clone_part(p: &PathPart) -> (r: PathPart)
    ensures
        r@ == p@,
{
    match p {
        PathPart::Prefix(s) => PathPart::Prefix(s.clone()),
        PathPart::RootDir => PathPart::RootDir,
        PathPart::CurDir => PathPart::CurDir,
        PathPart::ParentDir => PathPart::ParentDir,
        PathPart::Normal(s) => PathPart::Normal(s.clone()),
    }
}

/// The grouping key of a file path (see `group_key`).
fn key_of(path: &str) -> (r: Vec<PathPart>)
    ensures
        parts_view(r@) == group_key(path@),
{
    let parts = path_parts(path);
    match parent_len(&parts) {
        Some(n) => {
            let mut k: Vec<PathPart> = Vec::new();
            let mut i: usize = 0;
            while i < n
                invariant
                    i <= n,
                    n + 1 == parts@.len(),
                    k@.len() == i,
                    parts_view(k@) == parts_view(parts@).subrange(0, i as int),
                decreases n - i,
            {
                let ghost before = k@;
                let c = clone_part(&parts[i]);
                k.push(c);
                assert(parts_view(k@) =~= parts_view(parts@).subrange(0, i + 1)) by {
                    assert(k@ == before.push(c));
                    assert(before.len() == i);
                    assert(parts_view(k@).len() == i + 1);
                    assert forall|j: int| 0 <= j < i + 1 implies parts_view(k@)[j] == parts_view(parts@)[j] by {
                        assert(parts_view(k@)[j] == k@[j]@);
                        if j < i {
                            assert(k@[j] == before[j]);
                            assert(parts_view(before)[j] == before[j]@);
                            assert(parts_view(before)[j] == parts_view(parts@).subrange(0, i as int)[j]);
                        }
                    }
                };
                i = i + 1;
            }
            k
        },
        None => {
            proof {
                reveal_strlit(".");
            }
            path_parts(".")
        },
    }
}

proof fn lemma_find_group(gs: Seq<GroupView>, k: Seq<Part>, j: int)
    requires
        0 <= j <= gs.len(),
        forall|i: int| 0 <= i < j ==> gs[i].key != k,
    ensures
        j < gs.len() && gs[j].key == k ==> find_group(gs, k) == j,
        j == gs.len() ==> find_group(gs, k) == -1,
    decreases gs.len(),
{
    if gs.len() > 0 {
        if j < gs.len() {
            lemma_find_group(gs.drop_last(), k, j);
        } else {
            lemma_find_group(gs.drop_last(), k, j - 1);
        }
    }
}

fn find_group_exec(groups: &Vec<Group>, key: &Vec<PathPart>) -> (r: Option<usize>)
    ensures
        match r {
            Some(j) => j < groups@.len() && find_group(groups_view(groups@), parts_view(key@)) == j,
            None => find_group(groups_view(groups@), parts_view(key@)) == -1,
        },
{
    let mut j: usize = 0;
    while j < groups.len()
        invariant
            j <= groups@.len(),
            forall|i: int| 0 <= i < j ==> groups_view(groups@)[i].key != parts_view(key@),
        decreases groups.len() - j,
    {
        let g = &groups[j];
        assert(parts_view(g.key@).subrange(0, g.key@.len() as int) =~= parts_view(g.key@));
        assert(parts_view(key@).subrange(0, key@.len() as int) =~= parts_view(key@));
        if parts_prefix_equal(&g.key, g.key.len(), key, key.len()) {
            proof {
                lemma_find_group(groups_view(groups@), parts_view(key@), j as int);
            }
            return Some(j);
        }
        j = j + 1;
    }
    proof {
        lemma_find_group(groups_view(groups@), parts_view(key@), j as int);
    }
    None
}

fn group_entries(entries: &Vec<FileEntry>) -> (r: Vec<Group>)
    ensures
        groups_view(r@) == groups_upto(entries@.map_values(|e: FileEntry| e@.path), entries@.len()),
        forall|j: int, m: int|
            0 <= j < r@.len() && 0 <= m < r@[j].members@.len() ==> #[trigger] r@[j].members@[m] < entries@.len(),
        forall|j: int| 0 <= j < r@.len() ==> std_path_components(#[trigger] r@[j].dir@) == parts_view(r@[j].key@),
{
    let ghost paths = entries@.map_values(|e: FileEntry| e@.path);
    let mut groups: Vec<Group> = Vec::new();
    let mut i: usize = 0;
    assert(groups_view(groups@) =~= groups_upto(paths, 0));
    while i < entries.len()
        invariant
            i <= entries@.len(),
            paths == entries@.map_values(|e: FileEntry| e@.path),
            groups_view(groups@) == groups_upto(paths, i as nat),
            forall|j: int, m: int|
                0 <= j < groups@.len() && 0 <= m < groups@[j].members@.len() ==> #[trigger] groups@[j].members@[m] < i,
            forall|j: int| 0 <= j < groups@.len() ==> std_path_components(#[trigger] groups@[j].dir@) == parts_view(groups@[j].key@),
        decreases entries.len() - i,
    {
        let path = entries[i].path.as_str();
        assert(path@ == paths[i as int]);
        let key = key_of(path);
        let ghost gs = groups_view(groups@);
        match find_group_exec(&groups, &key) {
            Some(j) => {
                let ghost old_groups = groups@;
                let mut g = groups.remove(j);
                g.members.push(i);
                groups.insert(j, g);
                proof {
                    assert forall|jj: int| 0 <= jj < groups@.len() implies std_path_components(#[trigger] groups@[jj].dir@) == parts_view(groups@[jj].key@) by {
                        assert(groups@[jj].dir@ == old_groups[jj].dir@);
                        assert(groups@[jj].key@ == old_groups[jj].key@);
                    }
                    let upd = gs.update(j as int, GroupView { members: gs[j as int].members.push(i as int), ..gs[j as int] });
                    assert(g@.members =~= gs[j as int].members.push(i as int));
                    assert(groups_view(groups@) =~= upd);
                }
            },
            None => {
                let dir = match path_parent(path) {
                    Some(d) => d,
                    None => {
                        proof {
                            reveal_strlit(".");
                        }
                        String::from_str(".")
                    },
                };
                let mut members: Vec<usize> = Vec::new();
                members.push(i);
                let g = Group { key, dir, members };
                groups.push(g);
                proof {
                    assert(std_path_components(g.dir@) == parts_view(g.key@));
                    assert(g@.members =~= seq![i as int]);
                    assert(groups_view(groups@) =~= gs.push(g@));
                }
            },
        }
        i = i + 1;
    }
    groups
}

proof fn lemma_copies_stay_failed(entries: Seq<FileEntryView>, members: Seq<int>, bdir: Seq<char>, a: nat, b: nat)
    requires
        a <= b,
        copies_upto(entries, members, bdir, a).1 is Some,
    ensures
        copies_upto(entries, members, bdir, b) == copies_upto(entries, members, bdir, a),
    decreases b - a,
{
    if a < b {
        lemma_copies_stay_failed(entries, members, bdir, a, (b - 1) as nat);
    }
}

proof fn lemma_plan_stays_failed(entries: Seq<FileEntryView>, gs: Seq<GroupView>, ts: Seq<char>, a: nat, b: nat)
    requires
        a <= b,
        plan_upto(entries, gs, ts, a).1 is Some,
    ensures
        plan_upto(entries, gs, ts, b) == plan_upto(entries, gs, ts, a),
    decreases b - a,
{
    if a < b {
        lemma_plan_stays_failed(entries, gs, ts, a, (b - 1) as nat);
    }
}

/// Values of planned backup groups.
pub open spec fn backup_groups_view(v: Seq<BackupGroup>) -> Seq<BackupGroupView> {
    v.map_values(|g: BackupGroup| g@)
}

/// The timestamp of a backup for the local time `now`: `now` written as
/// `YYYYMMDD_HHMMSS` (see `stamp_text`).
pub fn backup_stamp(now: &DateTimeFields) -> (r: String)
    ensures
        r@ == stamp_text(now@),
{
    proof {
        use_type_invariant(now);
    }
    format_date_time(now, BACKUP_STAMP_FORMAT)
}

/// Law: with the timestamp of any date and time, `backup_<timestamp>` is a
/// plain file name, so the backup copies planned with it pass the undo check
/// (see `backup_copy_is_accepted`).
pub proof fn law_backup_stamp_names_a_plain_directory(now: crate::dates::DateTimeView)
    ensures
        plain_name("backup_"@ + stamp_text(now)),
{
    let ts = stamp_text(now);
    let d = "backup_"@ + ts;
    lemma_stamp_text_safe(now);
    reveal_strlit("backup_");
    reveal_strlit(".");
    reveal_strlit("..");
    assert(d.len() > 2);
    assert(d != "."@ && d != ".."@) by {
        assert("."@.len() == 1);
        assert(".."@.len() == 2);
    }
    assert forall|i: int| 0 <= i < d.len() implies d[i] != '/' && d[i] != '\\' && d[i] != ':' by {
        if i >= 7 {
            assert(d[i] == ts[i - 7]);
        }
    }
}

/// Whether a planned copy is one the undo run accepts as the backup of its
/// source: it is, whenever the source is a normal absolute file path with a
/// plain file name and the timestamp keeps `backup_<timestamp>` a plain name.
pub open spec fn backup_copy_is_accepted(cp: BackupCopyView, timestamp: Seq<char>) -> bool {
    (spec_is_normal_absolute_file_path(cp.source)
        && plain_name(spec_file_name(std_path_components(cp.source))->0)
        && plain_name("backup_"@ + timestamp))
        ==> spec_is_safe_backup_path(cp.source, cp.destination)
}

proof fn lemma_find_group_key(gs: Seq<GroupView>, k: Seq<Part>)
    ensures
        find_group(gs, k) >= 0 ==> find_group(gs, k) < gs.len() && gs[find_group(gs, k)].key == k,
    decreases gs.len(),
{
    if gs.len() > 0 {
        lemma_find_group_key(gs.drop_last(), k);
    }
}

proof fn lemma_members_share_key(paths: Seq<Seq<char>>, n: nat)
    ensures
        forall|j: int, m: int|
            0 <= j < groups_upto(paths, n).len() && 0 <= m < groups_upto(paths, n)[j].members.len()
                ==> group_key(paths[#[trigger] groups_upto(paths, n)[j].members[m]]) == groups_upto(paths, n)[j].key,
    decreases n,
{
    if n > 0 {
        lemma_members_share_key(paths, (n - 1) as nat);
        let gs = groups_upto(paths, (n - 1) as nat);
        let p = paths[n - 1];
        lemma_find_group_key(gs, group_key(p));
        let r = groups_upto(paths, n);
        assert forall|j: int, m: int| 0 <= j < r.len() && 0 <= m < r[j].members.len()
            implies group_key(paths[#[trigger] r[j].members[m]]) == r[j].key by {
            let f = find_group(gs, group_key(p));
            if j < gs.len() && !(f >= 0 && j == f) {
                assert(r[j] == gs[j]);
            } else if f >= 0 && j == f {
                if m < gs[j].members.len() {
                    assert(r[j].members[m] == gs[j].members[m]);
                }
            }
        }
    }
}

/// A copy named `name` of `src` into `bdir`, the `backup_<timestamp>`
/// directory next to `src`, is accepted by the undo run.
proof fn lemma_backup_copy_accepted(
    src: Seq<char>,
    gdir: Seq<char>,
    bdir: Seq<char>,
    dest: Seq<char>,
    name: Seq<char>,
    ts: Seq<char>,
)
    requires
        spec_file_name(std_path_components(src)) == Some(name),
        spec_parent(std_path_components(src)) == Some(std_path_components(gdir)),
        forall|q: Seq<char>|
            spec_parent(std_path_components(src)) == Some(#[trigger] std_path_components(q))
                ==> std_path_is_absolute(q) == std_path_is_absolute(src),
        plain_name("backup_"@ + ts) ==> std_path_components(bdir) == std_path_components(gdir).push(
            Part::Normal("backup_"@ + ts),
        ),
        plain_name("backup_"@ + ts) ==> std_path_is_absolute(bdir) == std_path_is_absolute(gdir),
        plain_name(name) ==> std_path_components(dest) == std_path_components(bdir).push(Part::Normal(name)),
        plain_name(name) ==> std_path_is_absolute(dest) == std_path_is_absolute(bdir),
    ensures
        (spec_is_normal_absolute_file_path(src) && plain_name(name) && plain_name("backup_"@ + ts))
            ==> spec_is_safe_backup_path(src, dest),
{
    if spec_is_normal_absolute_file_path(src) && plain_name(name) && plain_name("backup_"@ + ts) {
        let sp = std_path_components(src);
        let gp = std_path_components(gdir);
        let bt = "backup_"@ + ts;
        let dp = std_path_components(dest);
        let dir = gp.push(Part::Normal(bt));
        assert(std_path_is_absolute(gdir) == std_path_is_absolute(src));
        assert(dp == dir.push(Part::Normal(name)));
        assert(gp == sp.drop_last());
        assert forall|i: int| 0 <= i < dp.len() implies !(#[trigger] dp[i] is Cur) && !(dp[i] is Parent) by {
            if i < gp.len() {
                assert(dp[i] == sp[i]);
            }
        }
        assert(spec_file_name(dp) == Some(name));
        assert(spec_parent(dp) == Some(dir)) by {
            assert(dp.drop_last() =~= dir);
        }
        assert(spec_file_name(dir) == Some(bt));
        assert(spec_parent(dir) == Some(gp)) by {
            assert(dir.drop_last() =~= gp);
        }
        assert(seq_starts_with(bt, "backup_"@)) by {
            reveal_strlit("backup_");
            assert(bt.subrange(0, 7) =~= "backup_"@);
        }
    }
}

/// Plans the backup of `entries` into `backup_<timestamp>` directories (see
/// `backup_plan`): files are grouped by parent directory in order of first
/// appearance, and each is copied under its own file name. A file without a
/// file name stops the plan with an error after the steps before it.
pub fn plan_backup(entries: &Vec<FileEntry>, timestamp: &str) -> (r: BackupPlan)
    ensures
        (backup_groups_view(r.groups@), crate::models::opt_view(r.failure)) == backup_plan(
            crate::models::file_entries_view(entries@),
            timestamp@,
        ),
        forall|g: int, c: int|
            0 <= g < r.groups@.len() && 0 <= c < r.groups@[g].copies@.len()
                ==> backup_copy_is_accepted(#[trigger] r.groups@[g].copies@[c]@, timestamp@),
{
    let ghost ev = crate::models::file_entries_view(entries@);
    let groups = group_entries(entries);
    let ghost gs = groups_view(groups@);
    proof {
        assert(ev.map_values(|e: FileEntryView| e.path) =~= entries@.map_values(|e: FileEntry| e@.path));
        lemma_members_share_key(ev.map_values(|e: FileEntryView| e.path), ev.len());
    }
    assert(gs == groups_upto(ev.map_values(|e: FileEntryView| e.path), ev.len()));
    let dir_name = concat2("backup_", timestamp);
    let mut plan_groups: Vec<BackupGroup> = Vec::new();
    let mut gi: usize = 0;
    assert(backup_groups_view(plan_groups@) =~= Seq::empty());
    while gi < groups.len()
        invariant
            gi <= groups@.len(),
            gs == groups_view(groups@),
            gs.len() == groups@.len(),
            gs == groups_upto(ev.map_values(|e: FileEntryView| e.path), ev.len()),
            ev == crate::models::file_entries_view(entries@),
            dir_name@ == "backup_"@ + timestamp@,
            forall|j: int, m: int|
                0 <= j < groups@.len() && 0 <= m < groups@[j].members@.len() ==> #[trigger] groups@[j].members@[m] < entries@.len(),
            plan_upto(ev, gs, timestamp@, gi as nat) == (backup_groups_view(plan_groups@), None::<Seq<char>>),
            forall|j: int| 0 <= j < groups@.len() ==> std_path_components(#[trigger] groups@[j].dir@) == parts_view(groups@[j].key@),
            forall|j: int, m: int|
                0 <= j < gs.len() && 0 <= m < gs[j].members.len()
                    ==> group_key(ev.map_values(|e: FileEntryView| e.path)[#[trigger] gs[j].members[m]]) == gs[j].key,
            forall|g: int, c: int|
                0 <= g < plan_groups@.len() && 0 <= c < plan_groups@[g].copies@.len()
                    ==> backup_copy_is_accepted(#[trigger] plan_groups@[g].copies@[c]@, timestamp@),
        decreases groups.len() - gi,
    {
        let g = &groups[gi];
        assert(gs[gi as int] == g@);
        let bdir = path_join(g.dir.as_str(), dir_name.as_str());
        assert(std_path_components(g.dir@) == gs[gi as int].key);
        let ghost members = gs[gi as int].members;
        let mut copies: Vec<BackupCopy> = Vec::new();
        let mut mi: usize = 0;
        assert(copies@.map_values(|c: BackupCopy| c@) =~= Seq::empty());
        while mi < g.members.len()
            invariant
                mi <= g.members@.len(),
                gi < gs.len(),
                gs == groups_upto(ev.map_values(|e: FileEntryView| e.path), ev.len()),
                g@ == gs[gi as int],
                members == g@.members,
                bdir@ == backup_directory(g@.dir, timestamp@),
                ev == crate::models::file_entries_view(entries@),
                forall|m: int| 0 <= m < g.members@.len() ==> #[trigger] g.members@[m] < entries@.len(),
                plan_upto(ev, gs, timestamp@, gi as nat) == (backup_groups_view(plan_groups@), None::<Seq<char>>),
                copies_upto(ev, members, bdir@, mi as nat) == (copies@.map_values(|c: BackupCopy| c@), None::<Seq<char>>),
                std_path_components(g.dir@) == g@.key,
                dir_name@ == "backup_"@ + timestamp@,
                plain_name(dir_name@) ==> std_path_components(bdir@) == std_path_components(g.dir@).push(Part::Normal(dir_name@)),
                plain_name(dir_name@) ==> std_path_is_absolute(bdir@) == std_path_is_absolute(g.dir@),
                forall|m: int| 0 <= m < members.len()
                    ==> group_key(ev.map_values(|e: FileEntryView| e.path)[#[trigger] members[m]]) == g@.key,
                forall|c: int| 0 <= c < copies@.len() ==> backup_copy_is_accepted(#[trigger] copies@[c]@, timestamp@),
                forall|gg: int, c: int|
                    0 <= gg < plan_groups@.len() && 0 <= c < plan_groups@[gg].copies@.len()
                        ==> backup_copy_is_accepted(#[trigger] plan_groups@[gg].copies@[c]@, timestamp@),
            decreases g.members.len() - mi,
        {
            let idx = g.members[mi];
            assert(members[mi as int] == idx as int);
            let e = &entries[idx];
            assert(ev[idx as int] == e@);
            let parts = path_parts(e.path.as_str());
            match file_name(&parts) {
                Some(name) => {
                    let dest = path_join(bdir.as_str(), name.as_str());
                    proof {
                        let src = e.path@;
                        let sp = std_path_components(src);
                        assert(ev.map_values(|e: FileEntryView| e.path)[members[mi as int]] == src);
                        assert(spec_parent(sp) == Some(sp.drop_last()));
                        assert(group_key(src) == g@.key);
                        lemma_backup_copy_accepted(src, g.dir@, bdir@, dest@, name@, timestamp@);
                    }
                    let c = BackupCopy { source: e.path.clone(), destination: dest, filename: e.filename.clone() };
                    let ghost before = copies@;
                    copies.push(c);
                    assert(copies@.map_values(|c: BackupCopy| c@) =~= before.map_values(|c: BackupCopy| c@).push(c@));
                    assert(backup_copy_is_accepted(c@, timestamp@));
                    assert forall|cc: int| 0 <= cc < copies@.len() implies backup_copy_is_accepted(#[trigger] copies@[cc]@, timestamp@) by {
                        if cc < before.len() {
                            assert(copies@[cc] == before[cc]);
                        }
                    }
                },
                None => {
                    let msg = concat2("Failed to resolve filename for ", e.path.as_str());
                    let group = BackupGroup { directory: bdir, copies };
                    let ghost before = plan_groups@;
                    plan_groups.push(group);
                    proof {
                        assert(spec_file_name(std_path_components(ev[members[mi as int]].path)) is None);
                        assert(copies_upto(ev, members, bdir@, (mi + 1) as nat) == (copies@.map_values(|c: BackupCopy| c@), Some(msg@)));
                        lemma_copies_stay_failed(ev, members, bdir@, (mi + 1) as nat, members.len());
                        assert(group@.copies == copies@.map_values(|c: BackupCopy| c@));
                        assert(backup_groups_view(plan_groups@) =~= backup_groups_view(before).push(group@));
                        assert forall|gg: int, c: int|
                            0 <= gg < plan_groups@.len() && 0 <= c < plan_groups@[gg].copies@.len()
                                implies backup_copy_is_accepted(#[trigger] plan_groups@[gg].copies@[c]@, timestamp@) by {
                            if gg < before.len() {
                                assert(plan_groups@[gg] == before[gg]);
                            }
                        }
                        assert(plan_upto(ev, gs, timestamp@, (gi + 1) as nat) == (backup_groups_view(plan_groups@), Some(msg@)));
                        lemma_plan_stays_failed(ev, gs, timestamp@, (gi + 1) as nat, gs.len());
                        assert(ev.len() == entries@.len());
                        assert(gs == groups_upto(ev.map_values(|e: FileEntryView| e.path), ev.len()));
                    }
                    return BackupPlan { groups: plan_groups, failure: Some(msg) };
                },
            }
            mi = mi + 1;
        }
        let group = BackupGroup { directory: bdir, copies };
        let ghost before = plan_groups@;
        plan_groups.push(group);
        proof {
            assert(members.len() == g.members@.len());
            assert(backup_groups_view(plan_groups@) =~= backup_groups_view(before).push(group@));
            assert forall|gg: int, c: int|
                0 <= gg < plan_groups@.len() && 0 <= c < plan_groups@[gg].copies@.len()
        implies backup_copy_is_accepted(#[trigger] plan_groups@[gg].copies@[c]@, timestamp@) by {
                if gg < before.len() {
        assert(plan_groups@[gg] == before[gg]);
                }
            }
        }
        gi = gi + 1;
    }
    BackupPlan { groups: plan_groups, failure: None }
}

/// The error when a backup directory cannot be created.
pub fn backup_directory_error(reason: &str) -> (r: String)
    ensures
        r@ == "Failed to create backup directory: "@ + reason@,
{
    concat2("Failed to create backup directory: ", reason)
}

/// The error when a file cannot be copied into the backup.
pub fn backup_copy_error(filename: &str, reason: &str) -> (r: String)
    ensures
        r@ == "Failed to backup "@ + filename@ + ": "@ + reason@,
{
    concat3("Failed to backup ", filename, ": ").concat(reason)
}

proof fn lemma_find_group_range(gs: Seq<GroupView>, k: Seq<Part>)
    ensures
        -1 <= find_group(gs, k) < gs.len(),
    decreases gs.len(),
{
    if gs.len() > 0 {
        lemma_find_group_range(gs.drop_last(), k);
    }
}

proof fn lemma_group_members_in_range(paths: Seq<Seq<char>>, n: nat)
    ensures
        forall|j: int, m: int|
            0 <= j < groups_upto(paths, n).len() && 0 <= m < groups_upto(paths, n)[j].members.len()
                ==> 0 <= #[trigger] groups_upto(paths, n)[j].members[m] < n,
    decreases n,
{
    if n > 0 {
        lemma_group_members_in_range(paths, (n - 1) as nat);
        let gs = groups_upto(paths, (n - 1) as nat);
        lemma_find_group_range(gs, group_key(paths[n - 1]));
    }
}

proof fn lemma_copies_keep_names(entries: Seq<FileEntryView>, members: Seq<int>, bdir: Seq<char>, m: nat)
    requires
        m <= members.len(),
        forall|i: int| 0 <= i < members.len() ==> 0 <= #[trigger] members[i] < entries.len(),
    ensures
        forall|c: int| 0 <= c < copies_upto(entries, members, bdir, m).0.len() ==> {
            let cp = #[trigger] copies_upto(entries, members, bdir, m).0[c];
            &&& spec_file_name(std_path_components(cp.source)) is Some
            &&& cp.destination == std_path_join(bdir, spec_file_name(std_path_components(cp.source))->0)
            &&& exists|i: int| 0 <= i < entries.len() && entries[i].path == cp.source && entries[i].filename == cp.filename
        },
    decreases m,
{
    if m > 0 {
        lemma_copies_keep_names(entries, members, bdir, (m - 1) as nat);
        let (cs, f) = copies_upto(entries, members, bdir, (m - 1) as nat);
        if f is None {
            let i = members[m - 1];
            let e = entries[i];
            if spec_file_name(std_path_components(e.path)) is Some {
                let r = copies_upto(entries, members, bdir, m).0;
                assert forall|c: int| 0 <= c < r.len() implies {
                    let cp = #[trigger] r[c];
                    &&& spec_file_name(std_path_components(cp.source)) is Some
                    &&& cp.destination == std_path_join(bdir, spec_file_name(std_path_components(cp.source))->0)
                    &&& exists|i: int| 0 <= i < entries.len() && entries[i].path == cp.source && entries[i].filename == cp.filename
                } by {
                    if c < cs.len() {
                        assert(r[c] == cs[c]);
                    } else {
                        assert(entries[i].path == r[c].source);
                    }
                }
            }
        }
    }
}

proof fn lemma_plan_groups_keep_names(entries: Seq<FileEntryView>, gs: Seq<GroupView>, ts: Seq<char>, n: nat)
    requires
        n <= gs.len(),
        forall|j: int, m: int| 0 <= j < gs.len() && 0 <= m < gs[j].members.len()
            ==> 0 <= #[trigger] gs[j].members[m] < entries.len(),
    ensures
        forall|g: int, c: int|
            0 <= g < plan_upto(entries, gs, ts, n).0.len() && 0 <= c < plan_upto(entries, gs, ts, n).0[g].copies.len()
                ==> {
                let grp = plan_upto(entries, gs, ts, n).0[g];
                let cp = #[trigger] plan_upto(entries, gs, ts, n).0[g].copies[c];
                &&& spec_file_name(std_path_components(cp.source)) is Some
                &&& cp.destination == std_path_join(grp.directory, spec_file_name(std_path_components(cp.source))->0)
                &&& exists|d: Seq<char>| grp.directory == backup_directory(d, ts)
                &&& exists|i: int| 0 <= i < entries.len() && entries[i].path == cp.source && entries[i].filename == cp.filename
            },
    decreases n,
{
    if n > 0 {
        lemma_plan_groups_keep_names(entries, gs, ts, (n - 1) as nat);
        let (ps, f) = plan_upto(entries, gs, ts, (n - 1) as nat);
        if f is None {
            let gv = gs[n - 1];
            let bdir = backup_directory(gv.dir, ts);
            assert forall|i: int| 0 <= i < gv.members.len() implies 0 <= #[trigger] gv.members[i] < entries.len() by {
                assert(gs[n - 1].members[i] == gv.members[i]);
            }
            lemma_copies_keep_names(entries, gv.members, bdir, gv.members.len());
            let r = plan_upto(entries, gs, ts, n).0;
            assert forall|g: int, c: int| 0 <= g < r.len() && 0 <= c < r[g].copies.len() implies {
                let grp = r[g];
                let cp = #[trigger] r[g].copies[c];
                &&& spec_file_name(std_path_components(cp.source)) is Some
                &&& cp.destination == std_path_join(grp.directory, spec_file_name(std_path_components(cp.source))->0)
                &&& exists|d: Seq<char>| grp.directory == backup_directory(d, ts)
                &&& exists|i: int| 0 <= i < entries.len() && entries[i].path == cp.source && entries[i].filename == cp.filename
            } by {
                if g < ps.len() {
                    assert(r[g] == ps[g]);
                } else {
                    assert(r[g].directory == backup_directory(gv.dir, ts));
                    let cs = copies_upto(entries, gv.members, bdir, gv.members.len()).0;
                    assert(r[g].copies[c] == cs[c]);
                }
            }
        }
    }
}

/// Law: every copy in a backup plan goes into a `backup_<timestamp>`
/// directory and is named after the source file's own file name (the
/// entry's display name plays no part in it); its source and name are those
/// of one of the entries.
pub proof fn law_backup_copies_keep_source_names(entries: Seq<FileEntryView>, timestamp: Seq<char>, g: int, c: int)
    requires
        0 <= g < backup_plan(entries, timestamp).0.len(),
        0 <= c < backup_plan(entries, timestamp).0[g].copies.len(),
    ensures
        ({
            let grp = backup_plan(entries, timestamp).0[g];
            let cp = grp.copies[c];
            &&& spec_file_name(std_path_components(cp.source)) is Some
            &&& cp.destination == std_path_join(grp.directory, spec_file_name(std_path_components(cp.source))->0)
            &&& exists|d: Seq<char>| grp.directory == backup_directory(d, timestamp)
            &&& exists|i: int| 0 <= i < entries.len() && entries[i].path == cp.source && entries[i].filename == cp.filename
        }),
{
    let paths = entries.map_values(|e: FileEntryView| e.path);
    let gs = groups_upto(paths, entries.len());
    lemma_group_members_in_range(paths, entries.len());
    lemma_plan_groups_keep_names(entries, gs, timestamp, gs.len());
    let cp = plan_upto(entries, gs, timestamp, gs.len()).0[g].copies[c];
}

/// Index `i` is a member of one of the groups `gs`.
spec fn is_member(gs: Seq<GroupView>, i: int) -> bool {
    exists|j: int, m: int| 0 <= j < gs.len() && 0 <= m < gs[j].members.len() && #[trigger] gs[j].members[m] == i
}

/// Every one of the first `n` paths is a member of one of their groups.
proof fn lemma_groups_cover(paths: Seq<Seq<char>>, n: nat)
    ensures
        forall|i: int| 0 <= i < n ==> #[trigger] is_member(groups_upto(paths, n), i),
    decreases n,
{
    if n > 0 {
        lemma_groups_cover(paths, (n - 1) as nat);
        let gs = groups_upto(paths, (n - 1) as nat);
        let p = paths[n - 1];
        let f = find_group(gs, group_key(p));
        lemma_find_group_range(gs, group_key(p));
        let r = groups_upto(paths, n);
        assert forall|i: int| 0 <= i < n implies #[trigger] is_member(r, i) by {
            if i == n - 1 {
                if f >= 0 {
                    assert(r[f].members[gs[f].members.len() as int] == i);
                } else {
                    assert(r[gs.len() as int].members[0] == i);
                }
            } else {
                assert(is_member(gs, i));
                let (j, m) = choose|j: int, m: int|
                    0 <= j < gs.len() && 0 <= m < gs[j].members.len() && #[trigger] gs[j].members[m] == i;
                if f >= 0 && j == f {
                    assert(r[j].members[m] == gs[j].members[m]);
                } else {
                    assert(r[j] == gs[j]);
                }
                assert(r[j].members[m] == i);
            }
        }
    }
}

/// Copies that did not stop on a failure are one per member, in order.
proof fn lemma_copies_full(entries: Seq<FileEntryView>, members: Seq<int>, bdir: Seq<char>, m: nat)
    requires
        copies_upto(entries, members, bdir, m).1 is None,
    ensures
        copies_upto(entries, members, bdir, m).0.len() == m,
        forall|c: int| 0 <= c < m ==> {
            let cp = #[trigger] copies_upto(entries, members, bdir, m).0[c];
            cp.source == entries[members[c]].path && cp.filename == entries[members[c]].filename
        },
    decreases m,
{
    if m > 0 {
        let (cs, f) = copies_upto(entries, members, bdir, (m - 1) as nat);
        if f is Some {
            lemma_copies_stay_failed(entries, members, bdir, (m - 1) as nat, m);
        } else {
            lemma_copies_full(entries, members, bdir, (m - 1) as nat);
            let r = copies_upto(entries, members, bdir, m).0;
            assert forall|c: int| 0 <= c < m implies #[trigger] r[c].source == entries[members[c]].path
                && r[c].filename == entries[members[c]].filename by {
                if c < m - 1 {
                    assert(r[c] == cs[c]);
                }
            }
        }
    }
}

/// A plan that did not stop on a failure holds every group's full copies.
proof fn lemma_plan_full(entries: Seq<FileEntryView>, gs: Seq<GroupView>, ts: Seq<char>, n: nat)
    requires
        n <= gs.len(),
        plan_upto(entries, gs, ts, n).1 is None,
    ensures
        plan_upto(entries, gs, ts, n).0.len() == n,
        forall|g: int|
            #![trigger plan_upto(entries, gs, ts, n).0[g]]
            #![trigger gs[g]]
            0 <= g < n ==> {
                let cu = copies_upto(entries, gs[g].members, backup_directory(gs[g].dir, ts), gs[g].members.len());
                &&& cu.1 is None
                &&& plan_upto(entries, gs, ts, n).0[g].copies == cu.0
            },
    decreases n,
{
    if n > 0 {
        let (ps, f) = plan_upto(entries, gs, ts, (n - 1) as nat);
        if f is Some {
            lemma_plan_stays_failed(entries, gs, ts, (n - 1) as nat, n);
        } else {
            lemma_plan_full(entries, gs, ts, (n - 1) as nat);
            let r = plan_upto(entries, gs, ts, n).0;
            let g1 = gs[n - 1];
            let cu1 = copies_upto(entries, g1.members, backup_directory(g1.dir, ts), g1.members.len());
            assert(plan_upto(entries, gs, ts, n) == (ps.push(BackupGroupView { directory: backup_directory(g1.dir, ts), copies: cu1.0 }), cu1.1));
            assert(r.len() == n);
            assert forall|g: int|
                #![trigger r[g]]
                #![trigger gs[g]]
                0 <= g < n implies {
                let cu = copies_upto(entries, gs[g].members, backup_directory(gs[g].dir, ts), gs[g].members.len());
                &&& cu.1 is None
                &&& r[g].copies == cu.0
            } by {
                if g < n - 1 {
                    assert(r[g] == ps[g]);
                    assert(ps[g] == plan_upto(entries, gs, ts, (n - 1) as nat).0[g]);
                } else {
                    assert(g == n - 1);
                    assert(cu1.1 is None);
                }
            }
        }
    }
}

/// Law: a backup plan that does not fail copies every entry. For each entry
/// there is a planned copy whose source is that entry's path and whose name
/// is its file name, so no file, HEIC or other, is left without a backup.
pub proof fn law_backup_plan_copies_every_entry(entries: Seq<FileEntryView>, timestamp: Seq<char>, i: int)
    requires
        backup_plan(entries, timestamp).1 is None,
        0 <= i < entries.len(),
    ensures
        exists|g: int, c: int|
            0 <= g < backup_plan(entries, timestamp).0.len() && 0 <= c < backup_plan(entries, timestamp).0[g].copies.len()
                && (#[trigger] backup_plan(entries, timestamp).0[g].copies[c]).source == entries[i].path
                && backup_plan(entries, timestamp).0[g].copies[c].filename == entries[i].filename,
{
    let paths = entries.map_values(|e: FileEntryView| e.path);
    let gs = groups_upto(paths, entries.len());
    let plan = backup_plan(entries, timestamp).0;
    lemma_groups_cover(paths, entries.len());
    lemma_plan_full(entries, gs, timestamp, gs.len());
    assert(is_member(gs, i));
    let (j, m) = choose|j: int, m: int|
        0 <= j < gs.len() && 0 <= m < gs[j].members.len() && #[trigger] gs[j].members[m] == i;
    let cu = copies_upto(entries, gs[j].members, backup_directory(gs[j].dir, timestamp), gs[j].members.len());
    assert(plan[j].copies == cu.0);
    lemma_copies_full(entries, gs[j].members, backup_directory(gs[j].dir, timestamp), gs[j].members.len());
    assert(cu.0[m].source == entries[i].path);
    assert(plan[j].copies[m].source == entries[i].path);
}

/// Number of member indices over groups.
pub open spec fn total_members(gs: Seq<GroupView>) -> nat
    decreases gs.len(),
{
    if gs.len() == 0 {
        0
    } else {
        total_members(gs.drop_last()) + gs.last().members.len()
    }
}

/// Number of planned copies over groups.
pub open spec fn total_copies(groups: Seq<BackupGroupView>) -> nat
    decreases groups.len(),
{
    if groups.len() == 0 {
        0
    } else {
        total_copies(groups.drop_last()) + groups.last().copies.len()
    }
}

proof fn lemma_total_members_update(gs: Seq<GroupView>, j: int, g: GroupView)
    requires
        0 <= j < gs.len(),
    ensures
        total_members(gs.update(j, g)) == total_members(gs) - gs[j].members.len() + g.members.len(),
    decreases gs.len(),
{
    let u = gs.update(j, g);
    if j == gs.len() - 1 {
        assert(u.drop_last() =~= gs.drop_last());
    } else {
        lemma_total_members_update(gs.drop_last(), j, g);
        assert(u.drop_last() =~= gs.drop_last().update(j, g));
    }
}

/// The groups of the first `n` paths hold `n` members in all.
proof fn lemma_groups_count(paths: Seq<Seq<char>>, n: nat)
    ensures
        total_members(groups_upto(paths, n)) == n,
    decreases n,
{
    if n > 0 {
        lemma_groups_count(paths, (n - 1) as nat);
        let gs = groups_upto(paths, (n - 1) as nat);
        let p = paths[n - 1];
        let f = find_group(gs, group_key(p));
        lemma_find_group_range(gs, group_key(p));
        if f >= 0 {
            lemma_total_members_update(gs, f, GroupView { members: gs[f].members.push(n - 1), ..gs[f] });
        } else {
            let r = groups_upto(paths, n);
            assert(r.drop_last() =~= gs);
        }
    }
}

/// A plan without failure has as many copies as its groups have members.
proof fn lemma_plan_count(entries: Seq<FileEntryView>, gs: Seq<GroupView>, ts: Seq<char>, n: nat)
    requires
        n <= gs.len(),
        plan_upto(entries, gs, ts, n).1 is None,
    ensures
        total_copies(plan_upto(entries, gs, ts, n).0) == total_members(gs.take(n as int)),
    decreases n,
{
    lemma_plan_full(entries, gs, ts, n);
    if n > 0 {
        let (ps, f) = plan_upto(entries, gs, ts, (n - 1) as nat);
        if f is Some {
            lemma_plan_stays_failed(entries, gs, ts, (n - 1) as nat, n);
        } else {
            lemma_plan_count(entries, gs, ts, (n - 1) as nat);
            let r = plan_upto(entries, gs, ts, n).0;
            let g = gs[n - 1];
            let cu = copies_upto(entries, g.members, backup_directory(g.dir, ts), g.members.len());
            assert(r[n - 1].copies == cu.0);
            lemma_copies_full(entries, g.members, backup_directory(g.dir, ts), g.members.len());
            assert(r.drop_last() =~= ps);
            assert(gs.take(n as int).drop_last() =~= gs.take(n - 1));
            assert(gs.take(n as int).last() == g);
        }
    }
}

/// Law: a backup plan that does not fail makes exactly one copy per entry:
/// it plans as many copies as there are entries (and, by
/// `law_backup_plan_copies_every_entry`, one for each of them).
pub proof fn law_backup_plan_copies_each_entry_once(entries: Seq<FileEntryView>, timestamp: Seq<char>)
    requires
        backup_plan(entries, timestamp).1 is None,
    ensures
        total_copies(backup_plan(entries, timestamp).0) == entries.len(),
{
    let paths = entries.map_values(|e: FileEntryView| e.path);
    let gs = groups_upto(paths, entries.len());
    lemma_groups_count(paths, entries.len());
    lemma_plan_count(entries, gs, timestamp, gs.len());
    assert(gs.take(gs.len() as int) =~= gs);
}

} // verus!
