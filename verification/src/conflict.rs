//! Choosing a free target name: the requested path, or the first free
//! `stem_N.ext` next to it.

use vstd::prelude::*;

use crate::path::{
    extension_of, file_name, file_stem_of, last_dot, lemma_last_dot_bounds, path_join, path_parent,
    path_parts, plain_name, spec_extension, spec_file_name, spec_is_normal_absolute_file_path,
    spec_parent, spec_stem, std_path_components, std_path_is_absolute, std_path_join,
    std_path_parent, Part,
};
use crate::models::MAX_COLLISION_SUFFIX;
use crate::text::{concat3, dec, decimal_string, lemma_concat_safe, lemma_dec_safe, safe_chars};

verus! {

/// Directory in which alternatives to `target` are sought.
pub open spec fn conflict_dir(target: Seq<char>) -> Seq<char> {
    match std_path_parent(target) {
        Some(p) => p,
        None => "."@,
    }
}

/// Stem of the alternatives: the target's file stem, or `file`.
pub open spec fn conflict_stem(target: Seq<char>) -> Seq<char> {
    match spec_file_name(std_path_components(target)) {
        Some(n) => spec_stem(n),
        None => "file"@,
    }
}

/// Extension of the alternatives: the target's extension, or none.
pub open spec fn conflict_ext(target: Seq<char>) -> Seq<char> {
    match spec_file_name(std_path_components(target)) {
        Some(n) => match spec_extension(n) {
            Some(x) => x,
            None => ""@,
        },
        None => ""@,
    }
}

/// The file name of the `i`-th alternative: `stem_i` or `stem_i.ext`.
pub open spec fn candidate_name(stem: Seq<char>, ext: Seq<char>, i: nat) -> Seq<char> {
    if ext.len() == 0 {
        stem + "_"@ + dec(i)
    } else {
        stem + "_"@ + dec(i) + "."@ + ext
    }
}

/// Candidate `0` is the target itself; candidate `i > 0` is the `i`-th
/// alternative in the target's directory.
pub open spec fn candidate(target: Seq<char>, i: nat) -> Seq<char> {
    if i == 0 {
        target
    } else {
        std_path_join(
            conflict_dir(target),
            candidate_name(conflict_stem(target), conflict_ext(target), i),
        )
    }
}

/// The error when every candidate up to the limit is taken.
pub open spec fn too_many_conflicts_message(max_suffix: nat) -> Seq<char> {
    "Too many conflicting files (limit "@ + dec(max_suffix) + "). Cannot find a unique filename."@
}

/// `is_taken` answered `answer` when asked about `path`.
pub open spec fn reported<F: Fn(&str) -> bool>(is_taken: F, path: Seq<char>, answer: bool) -> bool {
    exists|s: &str| s@ == path && #[trigger] call_ensures(is_taken, (s,), answer)
}

/// The value of a string result.
pub open spec fn result_view(r: Result<String, String>) -> Result<Seq<char>, Seq<char>> {
    match r {
        Ok(p) => Ok(p@),
        Err(m) => Err(m@),
    }
}

/// `r` is how a collision on `target` is resolved with `is_taken` and the
/// limit `max_suffix`: the first candidate reported free, every earlier one
/// reported taken; or, when all up to the limit are reported taken, the
/// limit error.
pub open spec fn resolves<F: Fn(&str) -> bool>(
    target: Seq<char>,
    max_suffix: nat,
    is_taken: F,
    r: Result<Seq<char>, Seq<char>>,
) -> bool {
    match r {
        Ok(p) => exists|k: nat|
            #![trigger candidate(target, k)]
            k <= max_suffix && p == candidate(target, k) && reported(is_taken, p, false)
                && forall|j: nat| j < k ==> reported(is_taken, #[trigger] candidate(target, j), true),
        Err(m) => m == too_many_conflicts_message(max_suffix)
            && forall|j: nat| j <= max_suffix ==> reported(is_taken, #[trigger] candidate(target, j), true),
    }
}

/// `p` names a file, by a normal absolute path, in the directory of `target`.
pub open spec fn in_same_directory(target: Seq<char>, p: Seq<char>) -> bool {
    &&& spec_is_normal_absolute_file_path(p)
    &&& spec_parent(std_path_components(p)) == spec_parent(std_path_components(target))
}

/// `target` names a file by a normal absolute path whose file name is plain.
pub open spec fn plain_file_target(target: Seq<char>) -> bool {
    &&& spec_is_normal_absolute_file_path(target)
    &&& plain_name(spec_file_name(std_path_components(target))->0)
}

proof fn lemma_subrange_safe(s: Seq<char>, a: int, b: int)
    requires
        safe_chars(s),
        0 <= a <= b <= s.len(),
    ensures
        safe_chars(s.subrange(a, b)),
{
    assert forall|i: int| 0 <= i < s.subrange(a, b).len() implies s.subrange(a, b)[i] != '/'
        && s.subrange(a, b)[i] != '\\' && s.subrange(a, b)[i] != ':' by {
        assert(s.subrange(a, b)[i] == s[a + i]);
    }
}

/// The alternatives to a plain file name are plain file names.
proof fn lemma_candidate_name_plain(name: Seq<char>, i: nat)
    requires
        plain_name(name),
        i >= 1,
    ensures
        plain_name(
            candidate_name(
                spec_stem(name),
                match spec_extension(name) {
                    Some(x) => x,
                    None => ""@,
                },
                i,
            ),
        ),
{
    reveal_strlit("_");
    reveal_strlit(".");
    reveal_strlit("..");
    reveal_strlit("");
    lemma_last_dot_bounds(name);
    let stem = spec_stem(name);
    let ext = match spec_extension(name) {
        Some(x) => x,
        None => ""@,
    };
    if last_dot(name) > 0 {
        lemma_subrange_safe(name, 0, last_dot(name));
        lemma_subrange_safe(name, last_dot(name) + 1, name.len() as int);
    }
    assert(safe_chars(stem));
    assert(safe_chars(ext));
    lemma_dec_safe(i);
    let a = stem + "_"@;
    lemma_concat_safe(stem, "_"@);
    let b = a + dec(i);
    lemma_concat_safe(a, dec(i));
    let c = candidate_name(stem, ext, i);
    if ext.len() != 0 {
        let b2 = b + "."@;
        lemma_concat_safe(b, "."@);
        lemma_concat_safe(b2, ext);
        assert(c == b2 + ext);
    } else {
        assert(c == b);
    }
    assert(c[stem.len() as int] == '_');
    assert(c.len() >= stem.len() + 2);
    assert(c != "."@ && c != ".."@) by {
        assert("."@.len() == 1);
        assert(".."@.len() == 2);
        if c.len() == 2 {
            assert(stem.len() == 0);
            assert(c[0] == '_');
        }
    }
}

fn candidate_name_exec(stem: &str, ext: &str, i: u64) -> (r: String)
    ensures
        r@ == candidate_name(stem@, ext@, i as nat),
{
    let d = decimal_string(i);
    let mut r = concat3(stem, "_", d.as_str());
    if ext.unicode_len() != 0 {
        r.append(".");
        r.append(ext);
    }
    r
}

/// Returns `target` when `is_taken` reports it free; otherwise the first
/// alternative `stem_1.ext`, `stem_2.ext`, ... up to `max_suffix` that
/// `is_taken` reports free; otherwise an error. `is_taken` is asked about the
/// candidates in that order and about nothing else.
pub fn resolve_conflict_with_limit<F: Fn(&str) -> bool>(
    target: &str,
    max_suffix: u32,
    is_taken: &F,
) -> (r: Result<String, String>)
    requires
        forall|s: &str| #[trigger] is_taken.requires((s,)),
    ensures
        resolves(target@, max_suffix as nat, *is_taken, result_view(r)),
        plain_file_target(target@) ==> (r matches Ok(p) ==> in_same_directory(target@, p@) && plain_file_target(p@)),
{
    if !is_taken(target) {
        assert(candidate(target@, 0) == target@);
        assert(reported(*is_taken, target@, false));
        return Ok(String::from_str(target));
    }
    assert(reported(*is_taken, candidate(target@, 0), true));
    let parts = path_parts(target);
    let name = file_name(&parts);
    let (stem, ext) = match &name {
        Some(n) => (
            file_stem_of(n.as_str()),
            match extension_of(n.as_str()) {
                Some(x) => x,
                None => String::new(),
            },
        ),
        None => (String::from_str("file"), String::new()),
    };
    let parent = match path_parent(target) {
        Some(p) => p,
        None => String::from_str("."),
    };
    proof {
        reveal_strlit("file");
        reveal_strlit(".");
        reveal_strlit("");
        assert(stem@ == conflict_stem(target@));
        assert(ext@ == conflict_ext(target@));
        assert(parent@ == conflict_dir(target@));
    }
    let mut i: u64 = 1;
    while i <= max_suffix as u64
        invariant
            1 <= i,
            i <= max_suffix + 1,
            stem@ == conflict_stem(target@),
            ext@ == conflict_ext(target@),
            parent@ == conflict_dir(target@),
            forall|s: &str| #[trigger] is_taken.requires((s,)),
            forall|j: nat| j < i ==> reported(*is_taken, #[trigger] candidate(target@, j), true),
            plain_file_target(target@) ==> std_path_components(parent@) == std_path_components(target@).drop_last()
                && std_path_is_absolute(parent@) == std_path_is_absolute(target@),
            plain_file_target(target@) ==> (name matches Some(nm) && nm@ == spec_file_name(std_path_components(target@))->0),
        decreases max_suffix + 1 - i,
    {
        let n = candidate_name_exec(stem.as_str(), ext.as_str(), i);
        let c = path_join(parent.as_str(), n.as_str());
        assert(c@ == candidate(target@, i as nat));
        proof {
            if plain_file_target(target@) {
                let tp = std_path_components(target@);
                let nm = spec_file_name(tp)->0;
                lemma_candidate_name_plain(nm, i as nat);
                assert(n@ == candidate_name(spec_stem(nm), conflict_ext(target@), i as nat));
                let cp = std_path_components(c@);
                assert(cp == tp.drop_last().push(Part::Normal(n@)));
                assert forall|k: int| 0 <= k < cp.len() implies !(#[trigger] cp[k] is Cur) && !(cp[k] is Parent) by {
                    if k < tp.len() - 1 {
                        assert(cp[k] == tp[k]);
                    }
                }
                assert(spec_parent(cp) == Some(cp.drop_last()));
                assert(cp.drop_last() =~= tp.drop_last());
                assert(spec_parent(tp) == Some(tp.drop_last()));
                assert(in_same_directory(target@, c@));
                assert(spec_file_name(cp) == Some(n@));
                assert(plain_file_target(c@));
            }
        }
        let cs = c.as_str();
        let taken = is_taken(cs);
        if !taken {
            assert(reported(*is_taken, c@, false));
            return Ok(c);
        }
        assert(reported(*is_taken, candidate(target@, i as nat), true));
        i = i + 1;
    }
    let d = decimal_string(max_suffix as u64);
    Err(concat3("Too many conflicting files (limit ", d.as_str(), "). Cannot find a unique filename."))
}

/// `resolve_conflict_with_limit` with the standard limit.
pub fn resolve_conflict<F: Fn(&str) -> bool>(target: &str, is_taken: &F) -> (r: Result<String, String>)
    requires
        forall|s: &str| #[trigger] is_taken.requires((s,)),
    ensures
        resolves(target@, MAX_COLLISION_SUFFIX as nat, *is_taken, result_view(r)),
        plain_file_target(target@) ==> (r matches Ok(p) ==> in_same_directory(target@, p@) && plain_file_target(p@)),
{
    resolve_conflict_with_limit(target, MAX_COLLISION_SUFFIX, is_taken)
}

} // verus!
