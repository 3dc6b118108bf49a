//! A model of file-system paths as the sequence of their components, with
//! the path queries the renamer needs (file name, parent, stem, extension)
//! computed and proved over that model. Parsing a path string into its
//! components, joining and absoluteness stay with `std::path`.

use vstd::prelude::*;
use vstd::string::*;

use crate::text::{safe_chars, str_equal};

verus! {

/// One component of a parsed path, as `std::path::Component` reports it.
pub enum PathPart {
    Prefix(String),
    RootDir,
    CurDir,
    ParentDir,
    Normal(String),
}

/// The mathematical value of a path component.
pub enum Part {
    Prefix(Seq<char>),
    Root,
    Cur,
    Parent,
    Normal(Seq<char>),
}

impl View for PathPart {
    type V = Part;

    open spec fn view(&self) -> Part {
        match self {
            PathPart::Prefix(s) => Part::Prefix(s@),
            PathPart::RootDir => Part::Root,
            PathPart::CurDir => Part::Cur,
            PathPart::ParentDir => Part::Parent,
            PathPart::Normal(s) => Part::Normal(s@),
        }
    }
}

/// The component values of a vector of parsed components.
pub open spec fn parts_view(v: Seq<PathPart>) -> Seq<Part> {
    v.map_values(|p: PathPart| p@)
}

/// What `Path::components` yields for a path string.
pub uninterp spec fn std_path_components(path: Seq<char>) -> Seq<Part>;

/// What `Path::is_absolute` answers for a path string.
pub uninterp spec fn std_path_is_absolute(path: Seq<char>) -> bool;

/// The text of `Path::parent` for a path string.
pub uninterp spec fn std_path_parent(path: Seq<char>) -> Option<Seq<char>>;

/// The text of `Path::with_extension`.
pub uninterp spec fn std_path_with_extension(path: Seq<char>, extension: Seq<char>) -> Seq<char>;

/// The text of `Path::join` of a base path and a relative name.
pub uninterp spec fn std_path_join(base: Seq<char>, child: Seq<char>) -> Seq<char>;

/// Splits a path into its components with `std::path::Path::components`.
/// The contract names the result: the parsing rules (separators, prefixes,
/// removal of `.` and of repeated separators) are std's and are not restated
/// here; they are fixed for a given build of the library. It also states one
/// fact std's `Path::parent` and `Path::is_absolute` give: `is_absolute` is
/// decided by the leading prefix and root components, which a parent keeps,
/// so any path whose components are those of this path's parent is absolute
/// exactly when this path is.
#[verifier::external_body]
pub(crate) fn path_parts(path: &str) -> (r: Vec<PathPart>)
    ensures
        parts_view(r@) == std_path_components(path@),
        forall|q: Seq<char>|
            spec_parent(parts_view(r@)) == Some(#[trigger] std_path_components(q))
                ==> std_path_is_absolute(q) == std_path_is_absolute(path@),
{
    let mut parts = Vec::new();
    for c in std::path::Path::new(path).components() {
        parts.push(match c {
            std::path::Component::Prefix(p) => PathPart::Prefix(p.as_os_str().to_string_lossy().into_owned()),
            std::path::Component::RootDir => PathPart::RootDir,
            std::path::Component::CurDir => PathPart::CurDir,
            std::path::Component::ParentDir => PathPart::ParentDir,
            std::path::Component::Normal(s) => PathPart::Normal(s.to_string_lossy().into_owned()),
        });
    }
    parts
}

/// Asks `std::path::Path::is_absolute`; the contract only names the answer,
/// which depends on the platform the library is built for.
#[verifier::external_body]
pub(crate) fn path_is_absolute(path: &str) -> (r: bool)
    ensures
        r == std_path_is_absolute(path@),
{
    std::path::Path::new(path).is_absolute()
}

/// The text of `std::path::Path::parent`. Beyond naming it, the contract
/// states what std documents of it: the parent is the path without its final
/// component, and there is one exactly when that component is a name, `.` or
/// `..` (not a root or prefix, and not for an empty path); it keeps the
/// path's prefix and root, hence its absoluteness.
#[verifier::external_body]
pub(crate) fn path_parent(path: &str) -> (r: Option<String>)
    ensures
        match r {
            Some(s) => std_path_parent(path@) == Some(s@),
            None => std_path_parent(path@) is None,
        },
        r is Some == spec_parent(std_path_components(path@)) is Some,
        r matches Some(s) ==> Some(std_path_components(s@)) == spec_parent(std_path_components(path@)),
        r matches Some(s) ==> std_path_is_absolute(s@) == std_path_is_absolute(path@),
{
    std::path::Path::new(path).parent().map(|p| p.to_string_lossy().into_owned())
}

/// A single plain file name: not empty, not `.` or `..`, and free of the
/// characters that make std read a separator or a Windows prefix.
pub open spec fn plain_name(s: Seq<char>) -> bool {
    &&& s.len() > 0
    &&& s != "."@
    &&& s != ".."@
    &&& safe_chars(s)
}

/// The text of `std::path::Path::join`. Beyond naming it, the contract states
/// what std documents for joining a relative path (`PathBuf::push`): a plain
/// file name is appended as one more normal component, and the prefix and
/// root, hence absoluteness, stay those of the base.
#[verifier::external_body]
pub(crate) fn path_join(base: &str, child: &str) -> (r: String)
    ensures
        r@ == std_path_join(base@, child@),
        plain_name(child@) ==> std_path_components(r@) == std_path_components(base@).push(Part::Normal(child@)),
        plain_name(child@) ==> std_path_is_absolute(r@) == std_path_is_absolute(base@),
{
    std::path::Path::new(base).join(child).to_string_lossy().into_owned()
}

/// The final component when it is a normal name, as `Path::file_name` gives it.
pub open spec fn spec_file_name(parts: Seq<Part>) -> Option<Seq<char>> {
    if parts.len() > 0 && parts.last() is Normal {
        Some(parts.last()->Normal_0)
    } else {
        None
    }
}

/// The components of `Path::parent`: everything but the last component,
/// unless the path is empty or ends in a root or a prefix.
pub open spec fn spec_parent(parts: Seq<Part>) -> Option<Seq<Part>> {
    if parts.len() > 0 && !(parts.last() is Root) && !(parts.last() is Prefix) {
        Some(parts.drop_last())
    } else {
        None
    }
}

/// Index of the last `.` in a name, or -1.
pub open spec fn last_dot(name: Seq<char>) -> int
    decreases name.len(),
{
    if name.len() == 0 {
        -1
    } else if name.last() == '.' {
        name.len() - 1
    } else {
        last_dot(name.drop_last())
    }
}

/// `Path::file_stem` of a file name: the part before the last `.`, or the
/// whole name when it has no `.` other than a leading one.
pub open spec fn spec_stem(name: Seq<char>) -> Seq<char> {
    if last_dot(name) <= 0 {
        name
    } else {
        name.subrange(0, last_dot(name))
    }
}

/// `Path::extension` of a file name: the part after the last `.`, when that
/// `.` is not the first character.
pub open spec fn spec_extension(name: Seq<char>) -> Option<Seq<char>> {
    if last_dot(name) <= 0 {
        None
    } else {
        Some(name.subrange(last_dot(name) + 1, name.len() as int))
    }
}

/// A path that is absolute, ends in a file name and has no `.` or `..` component.
pub open spec fn spec_is_normal_absolute_file_path(path: Seq<char>) -> bool {
    let parts = std_path_components(path);
    &&& std_path_is_absolute(path)
    &&& spec_file_name(parts) is Some
    &&& forall|i: int| 0 <= i < parts.len() ==> !(#[trigger] parts[i] is Cur) && !(parts[i] is Parent)
}

pub proof fn lemma_last_dot_bounds(name: Seq<char>)
    ensures
        -1 <= last_dot(name) < name.len(),
        last_dot(name) >= 0 ==> name[last_dot(name)] == '.',
        forall|j: int| last_dot(name) < j < name.len() ==> name[j] != '.',
    decreases name.len(),
{
    if name.len() > 0 && name.last() != '.' {
        lemma_last_dot_bounds(name.drop_last());
        assert forall|j: int| last_dot(name) < j < name.len() implies name[j] != '.' by {
            if j < name.len() - 1 {
                assert(name.drop_last()[j] == name[j]);
            }
        }
    }
}

/// Index of the last `.` in `name`, if there is one.
fn find_last_dot(name: &str) -> (r: Option<usize>)
    ensures
        match r {
            Some(i) => i == last_dot(name@),
            None => last_dot(name@) == -1,
        },
{
    let n = name.unicode_len();
    let mut i: usize = n;
    proof {
        assert(name@.subrange(0, n as int) =~= name@);
    }
    while i > 0
        invariant
            i <= n,
            n == name@.len(),
            last_dot(name@) == last_dot(name@.subrange(0, i as int)),
        decreases i,
    {
        let ghost pre = name@.subrange(0, i as int);
        if name.get_char(i - 1) == '.' {
            return Some(i - 1);
        }
        assert(pre.drop_last() =~= name@.subrange(0, i - 1));
        i = i - 1;
    }
    None
}

/// `Path::file_stem` of a file name.
pub fn file_stem_of(name: &str) -> (r: String)
    ensures
        r@ == spec_stem(name@),
{
    proof { lemma_last_dot_bounds(name@); }
    match find_last_dot(name) {
        Some(d) if d > 0 => String::from_str(name.substring_char(0, d)),
        _ => String::from_str(name),
    }
}

/// `Path::extension` of a file name.
pub fn extension_of(name: &str) -> (r: Option<String>)
    ensures
        match r {
            Some(s) => spec_extension(name@) == Some(s@),
            None => spec_extension(name@) is None,
        },
{
    proof { lemma_last_dot_bounds(name@); }
    match find_last_dot(name) {
        Some(d) if d > 0 => {
            let n = name.unicode_len();
            Some(String::from_str(name.substring_char(d + 1, n)))
        },
        _ => None,
    }
}

/// No `/` and no `\\` in a string (the separators `std::path` knows of).
pub open spec fn has_no_separator(s: Seq<char>) -> bool {
    forall|i: int| 0 <= i < s.len() ==> s[i] != '/' && s[i] != '\\'
}

/// The file name `Path::with_extension` gives a file named `name`: its stem,
/// a dot and the new extension.
pub open spec fn name_with_extension(name: Seq<char>, extension: Seq<char>) -> Seq<char> {
    spec_stem(name) + "."@ + extension
}

/// A plain file name with a plain extension gives a plain name.
pub proof fn lemma_name_with_extension_plain(name: Seq<char>, extension: Seq<char>)
    requires
        plain_name(name),
        plain_name(extension),
    ensures
        plain_name(name_with_extension(name, extension)),
{
    reveal_strlit(".");
    reveal_strlit("..");
    lemma_last_dot_bounds(name);
    let stem = spec_stem(name);
    if last_dot(name) > 0 {
        assert forall|i: int| 0 <= i < stem.len() implies stem[i] != '/' && stem[i] != '\\' && stem[i] != ':' by {
            assert(stem[i] == name[i]);
        }
    }
    let a = stem + "."@;
    crate::text::lemma_concat_safe(stem, "."@);
    crate::text::lemma_concat_safe(a, extension);
    let r = name_with_extension(name, extension);
    assert(r == a + extension);
    assert(r.len() >= 2);
    assert(r != "."@ && r != ".."@) by {
        assert("."@.len() == 1);
        assert(".."@.len() == 2);
        if r.len() == 2 {
            assert(stem.len() == 0);
        }
    }
}

/// The text of `std::path::Path::with_extension`. std panics when the new
/// extension holds a separator of the platform; excluding `/` and `\\`
/// keeps clear of that on every platform. Beyond naming the result, the
/// contract states what std documents: for a path ending in a file name and
/// a non-empty extension, only the final component changes, to the file
/// stem, a dot and the extension (stated where that is a plain name); the
/// prefix and root, hence absoluteness, stay.
#[verifier::external_body]
pub(crate) fn path_with_extension(path: &str, extension: &str) -> (r: String)
    requires
        has_no_separator(extension@),
    ensures
        r@ == std_path_with_extension(path@, extension@),
        spec_file_name(std_path_components(path@)) matches Some(n) ==> (plain_name(
            name_with_extension(n, extension@),
        ) && extension@.len() > 0 ==> std_path_components(r@) == std_path_components(path@).drop_last().push(
            Part::Normal(name_with_extension(n, extension@)),
        ) && std_path_is_absolute(r@) == std_path_is_absolute(path@)),
{
    std::path::Path::new(path).with_extension(extension).to_string_lossy().into_owned()
}

/// The file name of parsed components.
pub fn file_name(parts: &Vec<PathPart>) -> (r: Option<String>)
    ensures
        match r {
            Some(s) => spec_file_name(parts_view(parts@)) == Some(s@),
            None => spec_file_name(parts_view(parts@)) is None,
        },
{
    let n = parts.len();
    if n == 0 {
        return None;
    }
    match &parts[n - 1] {
        PathPart::Normal(s) => Some(s.clone()),
        _ => None,
    }
}

/// Whether the parsed components contain a `.` or `..` component.
pub fn has_dot_component(parts: &Vec<PathPart>) -> (r: bool)
    ensures
        r == exists|i: int| 0 <= i < parts@.len() && (#[trigger] parts_view(parts@)[i] is Cur || parts_view(parts@)[i] is Parent),
{
    let mut i: usize = 0;
    while i < parts.len()
        invariant
            i <= parts@.len(),
            forall|j: int| 0 <= j < i ==> !(#[trigger] parts_view(parts@)[j] is Cur) && !(parts_view(parts@)[j] is Parent),
        decreases parts.len() - i,
    {
        match &parts[i] {
            PathPart::CurDir => {
                assert(parts_view(parts@)[i as int] is Cur);
                return true;
            },
            PathPart::ParentDir => {
                assert(parts_view(parts@)[i as int] is Parent);
                return true;
            },
            _ => {},
        }
        i = i + 1;
    }
    false
}

/// Equality of two path components.
pub fn part_equal(a: &PathPart, b: &PathPart) -> (r: bool)
    ensures
        r == (a@ == b@),
{
    match (a, b) {
        (PathPart::Prefix(x), PathPart::Prefix(y)) => str_equal(x.as_str(), y.as_str()),
        (PathPart::RootDir, PathPart::RootDir) => true,
        (PathPart::CurDir, PathPart::CurDir) => true,
        (PathPart::ParentDir, PathPart::ParentDir) => true,
        (PathPart::Normal(x), PathPart::Normal(y)) => str_equal(x.as_str(), y.as_str()),
        _ => false,
    }
}

/// Equality of the first `na` components of `a` and the first `nb` of `b`.
pub fn parts_prefix_equal(a: &Vec<PathPart>, na: usize, b: &Vec<PathPart>, nb: usize) -> (r: bool)
    requires
        na <= a@.len(),
        nb <= b@.len(),
    ensures
        r == (parts_view(a@).subrange(0, na as int) == parts_view(b@).subrange(0, nb as int)),
{
    if na != nb {
        assert(parts_view(a@).subrange(0, na as int).len() != parts_view(b@).subrange(0, nb as int).len());
        return false;
    }
    let mut i: usize = 0;
    while i < na
        invariant
            na == nb,
            na <= a@.len(),
            nb <= b@.len(),
            i <= na,
            forall|j: int| 0 <= j < i ==> parts_view(a@)[j] == parts_view(b@)[j],
        decreases na - i,
    {
        if !part_equal(&a[i], &b[i]) {
            assert(parts_view(a@).subrange(0, na as int)[i as int] != parts_view(b@).subrange(0, nb as int)[i as int]);
            return false;
        }
        i = i + 1;
    }
    assert(parts_view(a@).subrange(0, na as int) =~= parts_view(b@).subrange(0, nb as int));
    true
}

/// Length of the parent's components (`spec_parent`), if there is a parent.
pub fn parent_len(parts: &Vec<PathPart>) -> (r: Option<usize>)
    ensures
        match r {
            Some(n) => n + 1 == parts@.len() && spec_parent(parts_view(parts@)) == Some(parts_view(parts@).subrange(0, n as int)),
            None => spec_parent(parts_view(parts@)) is None,
        },
{
    let n = parts.len();
    if n == 0 {
        return None;
    }
    match &parts[n - 1] {
        PathPart::RootDir => None,
        PathPart::Prefix(_) => None,
        _ => {
            assert(parts_view(parts@).drop_last() =~= parts_view(parts@).subrange(0, (n - 1) as int));
            Some(n - 1)
        },
    }
}

/// Whether two parsed paths have equal parents (`Path::parent` compared with `==`).
pub fn parents_equal(a: &Vec<PathPart>, b: &Vec<PathPart>) -> (r: bool)
    ensures
        r == (spec_parent(parts_view(a@)) == spec_parent(parts_view(b@))),
{
    match (parent_len(a), parent_len(b)) {
        (Some(x), Some(y)) => parts_prefix_equal(a, x, b, y),
        (None, None) => true,
        _ => false,
    }
}

/// Whether `path` is absolute, names a file, and has no `.` or `..` component.
pub fn is_normal_absolute_file_path(path: &str) -> (r: bool)
    ensures
        r == spec_is_normal_absolute_file_path(path@),
{
    let parts = path_parts(path);
    path_is_absolute(path) && file_name(&parts).is_some() && !has_dot_component(&parts)
}

} // verus!
