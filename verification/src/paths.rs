//! The final component and the extension of a slash-separated path, as
//! `std::path::Path::file_name` and `Path::extension` define them on Unix.
use vstd::prelude::*;

use crate::text::{after_last, after_last_index, chars_of, slice_chars};

verus! {

/// The path without what `Path::components` normalizes away at its end:
/// trailing separators and trailing `.` components.
pub open spec fn strip_trailing(p: Seq<char>) -> Seq<char>
    decreases p.len(),
{
    if p.len() > 0 && p.last() == '/' {
        strip_trailing(p.drop_last())
    } else if p.len() >= 2 && p.last() == '.' && p[p.len() - 2] == '/' {
        strip_trailing(p.drop_last())
    } else {
        p
    }
}

/// The final component of a path when it is a normal one: `None` for a path
/// that is empty, a root, or ends in `.` (at its start) or `..`.
pub open spec fn path_file_name(p: Seq<char>) -> Option<Seq<char>> {
    let s = strip_trailing(p);
    let last = after_last(s, '/');
    if last.len() == 0 || last == seq!['.'] || last == seq!['.', '.'] {
        None
    } else {
        Some(last)
    }
}

/// The extension of a path: what follows the last `.` of its file name, when
/// that `.` is not the name's first character.
pub open spec fn path_extension(p: Seq<char>) -> Option<Seq<char>> {
    match path_file_name(p) {
        None => None,
        Some(name) => {
            let after = after_last(name, '.');
            let dot_end = name.len() - after.len();
            if dot_end <= 1 {
                None
            } else {
                Some(after)
            }
        },
    }
}

/// The length of the path without its trailing separators and `.`
/// components.
fn stripped_len(v: &Vec<char>) -> (res: usize)
    ensures
        res <= v.len(),
        strip_trailing(v@) == v@.take(res as int),
{
    let mut n: usize = v.len();
    assert(v@.take(n as int) =~= v@);
    while (n > 0 && v[n - 1] == '/') || (n >= 2 && v[n - 1] == '.' && v[n - 2] == '/')
        invariant
            n <= v.len(),
            strip_trailing(v@) == strip_trailing(v@.take(n as int)),
        decreases n,
    {
        assert(v@.take(n as int).drop_last() =~= v@.take(n - 1));
        n = n - 1;
    }
    n
}

/// The final component of a path, as `Path::file_name` gives it.
pub fn file_name(path: &str) -> (res: Option<Vec<char>>)
    ensures
        match res {
            Some(v) => path_file_name(path@) == Some(v@),
            None => path_file_name(path@) is None,
        },
{
    let v = chars_of(path);
    let n = stripped_len(&v);
    let s = slice_chars(&v, 0, n);
    assert(s@ =~= v@.take(n as int));
    let k = after_last_index(&s, '/');
    let last = slice_chars(&s, k, s.len());
    assert(last@ =~= s@.skip(k as int));
    if last.len() == 0 {
        return None;
    }
    if last.len() == 1 && last[0] == '.' {
        assert(last@ =~= seq!['.']);
        return None;
    }
    if last.len() == 2 && last[0] == '.' && last[1] == '.' {
        assert(last@ =~= seq!['.', '.']);
        return None;
    }
    proof {
        if last@ == seq!['.'] {
            assert(last@[0] == '.');
        }
        if last@ == seq!['.', '.'] {
            assert(last@[0] == '.' && last@[1] == '.');
        }
    }
    Some(last)
}

/// The extension of a path, as `Path::extension` gives it.
pub fn extension(path: &str) -> (res: Option<Vec<char>>)
    ensures
        match res {
            Some(v) => path_extension(path@) == Some(v@),
            None => path_extension(path@) is None,
        },
{
    match file_name(path) {
        None => None,
        Some(name) => {
            let k = after_last_index(&name, '.');
            let after = slice_chars(&name, k, name.len());
            assert(after@ =~= name@.skip(k as int));
            if k <= 1 {
                None
            } else {
                Some(after)
            }
        },
    }
}

} // verus!
