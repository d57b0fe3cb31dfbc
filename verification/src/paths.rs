//! Paths as text: which are absolute, and what a relative one names.

use vstd::prelude::*;

use crate::text::{ascii_lower, cat2, cat3, chars_of, lower, string_of};

verus! {

/// Whether `c` separates the parts of a path.
pub open spec fn separates(c: char, windows: bool) -> bool {
    c == '/' || (windows && c == '\\')
}

/// Whether a path begins with a drive.
pub open spec fn has_drive(path: Seq<char>) -> bool {
    &&& path.len() >= 2
    &&& 'a' <= path[0] <= 'z' || 'A' <= path[0] <= 'Z'
    &&& path[1] == ':'
}

/// Whether a path is absolute: it begins with a slash; on Windows, with a drive
/// and a separator, or with two separators.
pub open spec fn absolute(path: Seq<char>, windows: bool) -> bool {
    if windows {
        ||| has_drive(path) && path.len() >= 3 && separates(path[2], true)
        ||| path.len() >= 2 && separates(path[0], true) && separates(path[1], true)
    } else {
        path.len() > 0 && path[0] == '/'
    }
}

/// `path` below `dir`. No separator is put behind nothing, behind a separator,
/// or behind a drive alone.
pub open spec fn below(dir: Seq<char>, path: Seq<char>, windows: bool) -> Seq<char> {
    if dir.len() == 0 || separates(dir.last(), windows) || (windows && has_drive(dir) && dir.len() == 2) {
        dir + path
    } else if windows {
        dir + "\\"@ + path
    } else {
        dir + "/"@ + path
    }
}

/// What `path` names for a process that works in `dir`. An absolute path names
/// itself. On Windows a path that begins with a separator is on the drive of
/// `dir`, and one that begins with a drive alone is below `dir` if that is the
/// drive of `dir`, and at the root of that drive otherwise.
pub open spec fn resolved(dir: Seq<char>, path: Seq<char>, windows: bool) -> Seq<char> {
    if absolute(path, windows) {
        path
    } else if windows && has_drive(path) {
        if has_drive(dir) && ascii_lower(dir[0]) == ascii_lower(path[0]) {
            below(dir, path.skip(2), true)
        } else {
            path.take(2) + "\\"@ + path.skip(2)
        }
    } else if windows && path.len() > 0 && separates(path[0], true) && has_drive(dir) {
        dir.take(2) + path
    } else {
        below(dir, path, windows)
    }
}

/// Whether `c` separates the parts of a path.
fn is_separator(c: char, windows: bool) -> (r: bool)
    ensures
        r == separates(c, windows),
{
    c == '/' || (windows && c == '\\')
}

/// Whether a path begins with a drive.
fn begins_with_drive(v: &Vec<char>) -> (r: bool)
    ensures
        r == has_drive(v@),
{
    v.len() >= 2 && (('a' <= v[0] && v[0] <= 'z') || ('A' <= v[0] && v[0] <= 'Z')) && v[1] == ':'
}

/// Whether a path is absolute.
pub fn is_absolute(path: &str, windows: bool) -> (r: bool)
    ensures
        r == absolute(path@, windows),
{
    let v = chars_of(path);
    if windows {
        (begins_with_drive(&v) && v.len() >= 3 && is_separator(v[2], true)) || (v.len() >= 2 && is_separator(
            v[0],
            true,
        ) && is_separator(v[1], true))
    } else {
        v.len() > 0 && v[0] == '/'
    }
}

/// `path` below `dir`.
pub fn join_below(dir: &str, path: &str, windows: bool) -> (r: String)
    ensures
        r@ == below(dir@, path@, windows),
{
    let d = chars_of(dir);
    if d.len() == 0 || is_separator(d[d.len() - 1], windows) || (windows && begins_with_drive(&d) && d.len() == 2) {
        cat2(dir, path)
    } else if windows {
        cat3(dir, "\\", path)
    } else {
        cat3(dir, "/", path)
    }
}

/// What `path` names for a process that works in `dir`.
pub fn resolve(dir: &str, path: &str, windows: bool) -> (r: String)
    ensures
        r@ == resolved(dir@, path@, windows),
{
    if is_absolute(path, windows) {
        return path.to_owned();
    }
    let d = chars_of(dir);
    let p = chars_of(path);
    if windows && begins_with_drive(&p) {
        let rest = string_of(&p, 2, p.len());
        assert(rest@ =~= path@.skip(2));
        if begins_with_drive(&d) && lower(d[0]) == lower(p[0]) {
            join_below(dir, rest.as_str(), true)
        } else {
            let drive = string_of(&p, 0, 2);
            assert(drive@ =~= path@.take(2));
            cat3(drive.as_str(), "\\", rest.as_str())
        }
    } else if windows && p.len() > 0 && is_separator(p[0], true) && begins_with_drive(&d) {
        let drive = string_of(&d, 0, 2);
        assert(drive@ =~= dir@.take(2));
        cat2(drive.as_str(), path)
    } else {
        join_below(dir, path, windows)
    }
}

/// Whatever a path names for a process that works in an absolute directory is
/// absolute.
pub proof fn law_resolved_is_absolute(dir: Seq<char>, path: Seq<char>, windows: bool)
    requires
        absolute(dir, windows),
    ensures
        absolute(resolved(dir, path, windows), windows),
{
    reveal_strlit("\\");
    reveal_strlit("/");
    if !absolute(path, windows) {
        let r = resolved(dir, path, windows);
        if windows && has_drive(path) && !(has_drive(dir) && ascii_lower(dir[0]) == ascii_lower(path[0])) {
            assert(r[0] == path[0] && r[1] == path[1] && r[2] == '\\');
        } else if windows && !has_drive(path) && path.len() > 0 && separates(path[0], true) && has_drive(dir) {
            assert(r[0] == dir[0] && r[1] == dir[1] && r[2] == path[0]);
        } else {
            assert(r[0] == dir[0]);
            if windows {
                assert(r[1] == dir[1]);
                if has_drive(dir) {
                    assert(r[2] == dir[2]);
                }
            }
        }
    }
}

/// Different paths below one directory are different.
pub proof fn law_below_is_injective(dir: Seq<char>, a: Seq<char>, b: Seq<char>, windows: bool)
    requires
        below(dir, a, windows) == below(dir, b, windows),
    ensures
        a == b,
{
    let n = below(dir, a, windows).len() - a.len();
    assert(below(dir, a, windows).skip(n) =~= a);
    assert(below(dir, b, windows).skip(n) =~= b);
}

/// Elsewhere than on Windows, a path that begins with a slash names itself, and
/// any other is below the directory, behind one slash.
pub proof fn law_resolved(dir: Seq<char>, path: Seq<char>)
    ensures
        path.len() > 0 && path[0] == '/' ==> resolved(dir, path, false) == path,
        path.len() == 0 || path[0] != '/' ==> {
            &&& dir.len() == 0 ==> resolved(dir, path, false) == path
            &&& dir.len() > 0 && dir.last() == '/' ==> resolved(dir, path, false) == dir + path
            &&& dir.len() > 0 && dir.last() != '/' ==> resolved(dir, path, false) == dir + seq!['/'] + path
        },
        absolute(path, false) <==> path.len() > 0 && path[0] == '/',
{
    reveal_strlit("/");
    assert("/"@ =~= seq!['/']);
    assert(Seq::<char>::empty() + path =~= path);
    if dir.len() == 0 {
        assert(dir + path =~= path);
    }
}

/// On Windows, a path with a drive and a separator names itself, and so does one
/// with two separators in front; one with a single separator is on the drive of
/// the directory; one with a drive alone is below the directory where that is on
/// the same drive, and at the root of the drive otherwise; and any other is below
/// the directory.
pub proof fn law_resolved_on_windows(dir: Seq<char>, drive: char, sep: char, rest: Seq<char>)
    requires
        'a' <= drive <= 'z' || 'A' <= drive <= 'Z',
        sep == '/' || sep == '\\',
        dir.len() >= 3 && ('a' <= dir[0] <= 'z' || 'A' <= dir[0] <= 'Z') && dir[1] == ':' && (dir[2] == '/' || dir[2]
            == '\\'),
        rest.len() > 0 ==> rest[0] != '/' && rest[0] != '\\',
    ensures
        resolved(dir, seq![drive, ':', sep] + rest, true) == seq![drive, ':', sep] + rest,
        resolved(dir, seq![sep, sep] + rest, true) == seq![sep, sep] + rest,
        resolved(dir, seq![sep] + rest, true) == seq![dir[0], ':', sep] + rest,
        ascii_lower(drive) != ascii_lower(dir[0]) ==> resolved(dir, seq![drive, ':'] + rest, true) == seq![
            drive,
            ':',
            '\\',
        ] + rest,
        ascii_lower(drive) == ascii_lower(dir[0]) ==> resolved(dir, seq![drive, ':'] + rest, true) == below(dir, rest, true),
        rest.len() < 2 || rest[1] != ':' ==> resolved(dir, rest, true) == below(dir, rest, true),
        dir.last() == '/' || dir.last() == '\\' ==> below(dir, rest, true) == dir + rest,
        dir.last() != '/' && dir.last() != '\\' ==> below(dir, rest, true) == dir + seq!['\\'] + rest,
{
    reveal_strlit("\\");
    assert("\\"@ =~= seq!['\\']);
    let a = seq![drive, ':', sep] + rest;
    assert(a[0] == drive && a[1] == ':' && a[2] == sep);
    let b = seq![sep, sep] + rest;
    assert(b[0] == sep && b[1] == sep);
    let c = seq![sep] + rest;
    assert(c[0] == sep);
    if rest.len() > 0 {
        assert(c[1] == rest[0]);
    }
    assert(dir.take(2) + c =~= seq![dir[0], ':', sep] + rest);
    let d = seq![drive, ':'] + rest;
    assert(d[0] == drive && d[1] == ':');
    if rest.len() > 0 {
        assert(d[2] == rest[0]);
    }
    assert(d.skip(2) =~= rest);
    assert(d.take(2) + seq!['\\'] + rest =~= seq![drive, ':', '\\'] + rest);
}

/// On Windows, nothing is put behind nothing and behind a drive alone.
pub proof fn law_below_on_windows(dir: Seq<char>, path: Seq<char>)
    requires
        dir.len() == 0 || (dir.len() == 2 && ('a' <= dir[0] <= 'z' || 'A' <= dir[0] <= 'Z') && dir[1] == ':'),
    ensures
        below(dir, path, true) == dir + path,
{
}

} // verus!
