//! File-name facts taken from `std::path`, stated for paths that every
//! platform reads alike.
use vstd::prelude::*;

verus! {

/// A single file name: not empty, no separator or drive colon, not `.` or
/// `..`.
pub open spec fn plain_name(p: Seq<char>) -> bool {
    p.len() > 0 && !p.contains('/') && !p.contains('\\') && !p.contains(':') && p != "."@ && p
        != ".."@
}

/// Index of the last `/`, or -1.
pub open spec fn last_slash(p: Seq<char>) -> int
    decreases p.len(),
{
    if p.len() == 0 {
        -1
    } else if p.last() == '/' {
        p.len() - 1
    } else {
        last_slash(p.drop_last())
    }
}

/// What follows the last `/`.
pub open spec fn last_component(p: Seq<char>) -> Seq<char> {
    p.subrange(last_slash(p) + 1, p.len() as int)
}

/// A path whose components are separated by `/` alone, with no drive,
/// no network prefix (a leading `//`), and a bare file name last. Such a
/// path is read alike on every platform.
pub open spec fn simple_path(p: Seq<char>) -> bool {
    &&& !p.contains('\\')
    &&& !p.contains(':')
    &&& !(p.len() >= 2 && p[0] == '/' && p[1] == '/')
    &&& plain_name(last_component(p))
}

/// Index of the last dot, or -1.
pub open spec fn last_dot(p: Seq<char>) -> int
    decreases p.len(),
{
    if p.len() == 0 {
        -1
    } else if p.last() == '.' {
        p.len() - 1
    } else {
        last_dot(p.drop_last())
    }
}

/// Extension of a file name: what follows its last dot, none when the only
/// dot is the leading one or there is no dot.
pub open spec fn name_extension(p: Seq<char>) -> Option<Seq<char>> {
    let i = last_dot(p);
    if i <= 0 {
        None
    } else {
        Some(p.subrange(i + 1, p.len() as int))
    }
}

/// Stem of a file name: the name without its extension and final dot.
pub open spec fn name_stem(p: Seq<char>) -> Seq<char> {
    let i = last_dot(p);
    if i <= 0 {
        p
    } else {
        p.subrange(0, i)
    }
}

pub open spec fn opt_view(o: Option<String>) -> Option<Seq<char>> {
    match o {
        Some(s) => Some(s@),
        None => None,
    }
}

/// A directory path every platform reads alike: no backslash, no drive
/// colon, no network prefix (a leading `//`).
pub open spec fn simple_dir(p: Seq<char>) -> bool {
    &&& !p.contains('\\')
    &&& !p.contains(':')
    &&& !(p.len() >= 2 && p[0] == '/' && p[1] == '/')
}

/// Whether a separator goes between `dir` (a `simple_dir`) and a name added
/// to it: when `dir` is not empty and does not already end in `/`.
pub open spec fn needs_separator(dir: Seq<char>) -> bool {
    dir.len() > 0 && dir.last() != '/'
}

/// `joined` is `dir` with the bare name `name` added as a last component:
/// `dir` and `name` with the platform's separator (`/`, or `\` on Windows)
/// between them exactly when one is needed.
pub open spec fn joined(joined: Seq<char>, dir: Seq<char>, name: Seq<char>) -> bool {
    if needs_separator(dir) {
        joined == dir + seq!['/'] + name || joined == dir + seq!['\\'] + name
    } else {
        joined == dir + name
    }
}

/// Relies on `Path::extension`: the text after the last dot of the file
/// name, or none when the name has no dot past its first character.
#[verifier::external_body]
pub(crate) fn path_extension(p: &str) -> (r: Option<String>)
    ensures
        simple_path(p@) ==> opt_view(r) == name_extension(last_component(p@)),
{
    std::path::Path::new(p).extension().and_then(|e| e.to_str()).map(|e| e.to_string())
}

/// Relies on `Path::file_stem`: the file name without its extension.
#[verifier::external_body]
pub(crate) fn path_file_stem(p: &str) -> (r: Option<String>)
    ensures
        simple_path(p@) ==> opt_view(r) == Some(name_stem(last_component(p@))),
{
    std::path::Path::new(p).file_stem().and_then(|e| e.to_str()).map(|e| e.to_string())
}

/// Relies on `Path::join` (`PathBuf::push`): a relative bare name is
/// appended to the directory, after the main separator when the directory
/// is not empty and does not end in a separator.
#[verifier::external_body]
pub(crate) fn path_join(dir: &str, name: &str) -> (r: String)
    ensures
        simple_dir(dir@) && plain_name(name@) ==> joined(r@, dir@, name@),
{
    std::path::Path::new(dir).join(name).to_string_lossy().into_owned()
}

} // verus!
