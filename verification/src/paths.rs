//! File paths, as strings.
//!
//! Which characters separate the parts of a path depends on the system, so what
//! is stated here is what holds on Unix and on Windows. "Every system" means these.

use camino::Utf8Path;
use vstd::prelude::*;

verus! {

/// A character that separates the parts of a path on some system.
pub open spec fn is_separator(c: char) -> bool {
    c == '/' || c == '\\'
}

/// A path that begins with the verbatim prefix of Windows.
pub open spec fn is_verbatim(path: Seq<char>) -> bool {
    path.len() >= 4 && path.take(4) == seq!['\\', '\\', '?', '\\']
}

/// A path that is relative on every system: it is not empty, begins with no
/// separator and holds no colon.
pub open spec fn is_relative(path: Seq<char>) -> bool {
    &&& path.len() > 0
    &&& !is_separator(path[0])
    &&& forall|i: int| 0 <= i < path.len() ==> #[trigger] path[i] != ':'
}

/// A text that is a single part behind a slash of a path on every system: it is
/// not empty, holds no separator, and does not name the current or the parent
/// directory.
pub open spec fn is_part(name: Seq<char>) -> bool {
    &&& name.len() > 0
    &&& forall|i: int| 0 <= i < name.len() ==> !is_separator(#[trigger] name[i])
    &&& name != seq!['.']
    &&& name != seq!['.', '.']
}

/// A path that does not begin with two separators, which have a meaning of their
/// own on Windows.
pub open spec fn is_ordinary_path(path: Seq<char>) -> bool {
    !(path.len() >= 2 && is_separator(path[0]) && is_separator(path[1]))
}

/// `res` is `base` and `name` with a separator between them, where one is needed:
/// never behind an empty path or a slash, and always behind a character that is
/// neither a separator nor a colon.
pub open spec fn is_joined(base: Seq<char>, name: Seq<char>, res: Seq<char>) -> bool {
    if base.len() == 0 || base.last() == '/' {
        res == base + name
    } else {
        ||| is_joined_by(base, name, '/', res)
        ||| is_joined_by(base, name, '\\', res)
        ||| (is_separator(base.last()) || base.last() == ':') && res == base + name
    }
}

/// `res` is `base` and `name` with the given character between them.
pub open spec fn is_joined_by(
    base: Seq<char>,
    name: Seq<char>,
    separator: char,
    res: Seq<char>,
) -> bool {
    res == base.push(separator) + name
}

/// `Utf8Path::join`: a relative path is put behind a path, with a separator
/// between them where one is needed. Which separator that is depends on the system.
/// What comes of other names does too, and so does a path that is verbatim on
/// Windows and is rewritten there; both are left open.
#[verifier::external_body]
pub(crate) fn join_path(base: &str, name: &str) -> (res: String)
    ensures
        !is_verbatim(base@) && is_relative(name@) ==> is_joined(base@, name@, res@),
{
    Utf8Path::new(base).join(name).into_string()
}

/// A path without the slashes and the names of the current directory at its end.
pub open spec fn trimmed(path: Seq<char>) -> Seq<char>
    decreases path.len(),
{
    if path.len() > 0 && (path.last() == '/' || path == seq!['.'] || ends_in(
        path,
        seq!['/', '.'],
    )) {
        trimmed(path.drop_last())
    } else {
        path
    }
}

/// `path` ends in `end`.
pub open spec fn ends_in(path: Seq<char>, end: Seq<char>) -> bool {
    path.len() >= end.len() && path.skip(path.len() - end.len()) == end
}

/// A path without a last part on every system: an ordinary path of which nothing
/// is left when it is trimmed, or that then ends in the name of the parent directory.
pub open spec fn has_no_last_part(path: Seq<char>) -> bool {
    let rest = trimmed(path);
    &&& is_ordinary_path(path)
    &&& rest.len() == 0 || rest == seq!['.', '.'] || ends_in(rest, seq!['/', '.', '.'])
}

/// `name` is the last part of a path on every system: the path is ordinary, and
/// when it is trimmed it has this name behind its last slash, or is this name and
/// holds no colon.
pub open spec fn is_last_part(path: Seq<char>, name: Seq<char>) -> bool {
    let rest = trimmed(path);
    &&& is_ordinary_path(path)
    &&& is_part(name)
    &&& rest == name && is_relative(name) || ends_in(rest, seq!['/'] + name)
}

/// What an optional string holds.
pub open spec fn opt_text(s: Option<String>) -> Option<Seq<char>> {
    match s {
        Some(s) => Some(s@),
        None => None,
    }
}

/// `Utf8Path::file_name`: the last part of a path. Slashes and names of the current
/// directory at the end do not count, and a path that ends in the name of the parent
/// directory has no last part. What comes of other paths than those named here
/// depends on the system and is left open.
#[verifier::external_body]
pub(crate) fn file_name(path: &str) -> (res: Option<String>)
    ensures
        forall|name: Seq<char>| #[trigger]
            is_last_part(path@, name) ==> opt_text(res) == Some(name),
        has_no_last_part(path@) ==> res is None,
{
    Utf8Path::new(path).file_name().map(|name| name.to_string())
}

/// A name without separators and colons that is not that of a directory is the last
/// part of itself, and a name without separators is the last part behind any path that
/// does not begin with two separators and a slash.
pub proof fn law_names_are_last_parts(dir: Seq<char>, name: Seq<char>)
    requires
        name.len() > 0,
        name != seq!['.'],
        name != seq!['.', '.'],
        forall|i: int| 0 <= i < name.len() ==> (#[trigger] name[i]) != '/' && name[i] != '\\',
    ensures
        (forall|i: int| 0 <= i < name.len() ==> #[trigger] name[i] != ':') ==> is_last_part(
            name,
            name,
        ),
        dir.len() == 0 || (dir[0] != '/' && dir[0] != '\\') || (dir.len() >= 2 && dir[1] != '/'
            && dir[1] != '\\') ==> is_last_part(dir + seq!['/'] + name, name),
{
    let last = name.len() - 1;
    assert(name[last] != '/');
    assert(name[0] != '/' && name[0] != '\\');
    if ends_in(name, seq!['/', '.']) {
        assert(name.skip(name.len() - 2)[0] == name[name.len() - 2]);
    }
    assert(trimmed(name) == name);
    let path = dir + seq!['/'] + name;
    let n = path.len() as int;
    assert(path.last() == name[last]);
    if ends_in(path, seq!['/', '.']) {
        assert(path.skip(n - 2)[0] == path[n - 2]);
        assert(path.skip(n - 2)[1] == path[n - 1]);
        if name.len() >= 2 {
            assert(path[n - 2] == name[last - 1]);
        } else {
            assert(name =~= seq!['.']);
        }
    }
    assert(path[dir.len() as int] == '/');
    assert(path != seq!['.']);
    assert(trimmed(path) == path);
    assert(path.skip(n - name.len() - 1) =~= seq!['/'] + name);
    if dir.len() == 0 {
        assert(path[1] == name[0]);
    } else {
        assert(path[0] == dir[0]);
        if dir.len() >= 2 {
            assert(path[1] == dir[1]);
        } else {
            assert(path[1] == '/');
        }
    }
}

} // verus!
