//! The project selector: project labels and initials, and the result of the
//! folder dialog.
use vstd::prelude::*;

use crate::paths::{file_name, path_file_name};
use crate::text::{
    ascii_upper, ascii_upper_char, chars_of, is_ascii_alnum, is_ascii_alnum_char, owned,
    string_from_chars, trim_chars, trim_seq,
};

verus! {

broadcast use vstd::string::group_string_axioms;

/// What the project selector asks for.
#[derive(Debug, Clone, PartialEq, Eq)]
pub enum ProjectAction {
    OpenFolder,
    CloneRepository,
    SwitchWorkspace(String),
}

/// The label of a project: the final component of its path, else the whole
/// path.
pub open spec fn project_label_of(path: Seq<char>) -> Seq<char> {
    match path_file_name(path) {
        Some(name) => name,
        None => path,
    }
}

/// The label of a project.
pub fn project_label(path: &str) -> (res: String)
    ensures
        res@ == project_label_of(path@),
{
    match file_name(path) {
        Some(name) => string_from_chars(&name),
        None => owned(path),
    }
}

/// The first characters of the runs of ASCII letters and digits, in order.
pub open spec fn run_starts(s: Seq<char>) -> Seq<char>
    decreases s.len(),
{
    if s.len() == 0 {
        Seq::empty()
    } else {
        let before = run_starts(s.drop_last());
        if is_ascii_alnum(s.last()) && (s.len() == 1 || !is_ascii_alnum(s[s.len() - 2])) {
            before.push(s.last())
        } else {
            before
        }
    }
}

/// At most the first two elements.
pub open spec fn first_two(s: Seq<char>) -> Seq<char> {
    if s.len() <= 2 {
        s
    } else {
        s.take(2)
    }
}

/// The initials of a project: the upper-cased first characters of the first
/// two runs of ASCII letters and digits in its label; `P` when there is none.
pub open spec fn initials_of(label: Seq<char>) -> Seq<char> {
    let starts = run_starts(label);
    if starts.len() == 0 {
        seq!['P']
    } else {
        first_two(starts).map_values(|c: char| ascii_upper(c))
    }
}

/// The initials shown beside a project.
pub fn project_initials(path: &str) -> (res: String)
    ensures
        res@ == initials_of(project_label_of(path@)),
{
    let label = project_label(path);
    let v = chars_of(label.as_str());
    let mut out: Vec<char> = Vec::new();
    let mut i: usize = 0;
    while i < v.len()
        invariant
            i <= v.len(),
            out@ == first_two(run_starts(v@.take(i as int))).map_values(|c: char| ascii_upper(c)),
        decreases v.len() - i,
    {
        let c = v[i];
        let starts_run = is_ascii_alnum_char(c) && (i == 0 || !is_ascii_alnum_char(v[i - 1]));
        proof {
            let t = v@.take(i + 1);
            assert(t.drop_last() =~= v@.take(i as int));
            assert(t.last() == c);
            if i > 0 {
                assert(t[t.len() - 2] == v@[i - 1]);
            }
        }
        if starts_run && out.len() < 2 {
            out.push(ascii_upper_char(c));
            proof {
                let prev = run_starts(v@.take(i as int));
                assert(first_two(prev.push(c)).map_values(|c: char| ascii_upper(c))
                    =~= first_two(prev).map_values(|c: char| ascii_upper(c)).push(ascii_upper(c)));
            }
        } else {
            proof {
                let prev = run_starts(v@.take(i as int));
                if starts_run {
                    assert(first_two(prev.push(c)) =~= first_two(prev));
                }
            }
        }
        i = i + 1;
    }
    assert(v@.take(v.len() as int) =~= v@);
    if out.len() == 0 {
        let mut p: Vec<char> = Vec::new();
        p.push('P');
        assert(p@ =~= seq!['P']);
        string_from_chars(&p)
    } else {
        string_from_chars(&out)
    }
}

/// The folder that a folder dialog chose, from whether it succeeded and what
/// it printed: the trimmed output, unless it failed or chose nothing.
pub fn folder_from_dialog_output(success: bool, output: &str) -> (res: Option<String>)
    ensures
        !success ==> res is None,
        success && trim_seq(output@).len() == 0 ==> res is None,
        success && trim_seq(output@).len() > 0 ==> (res matches Some(s) && s@ == trim_seq(output@)),
{
    if !success {
        return None;
    }
    let selected = trim_chars(output);
    if selected.len() == 0 {
        None
    } else {
        Some(string_from_chars(&selected))
    }
}

} // verus!
