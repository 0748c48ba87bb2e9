//! The working-tree status, file listing and diff report of a repository:
//! what the library computes from what the repository reports.
use vstd::prelude::*;

use crate::ordering::{is_index_permutation, stable_order_by, stably_sorted_by, views_of};
use crate::text::{
    chars_of, concat2, concat3, is_blank, owned, replace_char, replace_char_seq, seq_le,
    str_equal, string_from_chars, trim_seq,
};

verus! {

broadcast use vstd::string::group_string_axioms;

/// One changed path with its two-letter status code.
#[derive(Debug, Clone, PartialEq, Eq)]
pub struct ChangeItem {
    pub code: String,
    pub path: String,
}

impl ChangeItem {
    /// A copy of the item.
    pub fn duplicate(&self) -> (res: ChangeItem)
        ensures
            res == *self,
    {
        ChangeItem { code: self.code.clone(), path: self.path.clone() }
    }
}

/// Why reading the repository failed. The texts of the causes are those that
/// the repository layer reported.
#[derive(Debug, Clone, PartialEq, Eq)]
pub enum GitStatusError {
    WorkspaceNotFound(String),
    OpenRepo(String),
    ReadFile { path: String, source: String },
}

/// The message shown for an error.
pub open spec fn error_message(e: GitStatusError) -> Seq<char> {
    match e {
        GitStatusError::WorkspaceNotFound(p) => "Workspace path does not exist: "@ + p@,
        GitStatusError::OpenRepo(m) => "Failed to open git repository: "@ + m@,
        GitStatusError::ReadFile { path, source } => "Failed to read file "@ + path@ + ": "@
            + source@,
    }
}

impl GitStatusError {
    /// The message shown for the error.
    pub fn message(&self) -> (res: String)
        ensures
            res@ == error_message(*self),
    {
        match self {
            GitStatusError::WorkspaceNotFound(p) => concat2(
                "Workspace path does not exist: ",
                p.as_str(),
            ),
            GitStatusError::OpenRepo(m) => concat2("Failed to open git repository: ", m.as_str()),
            GitStatusError::ReadFile { path, source } => {
                let head = concat3("Failed to read file ", path.as_str(), ": ");
                concat2(head.as_str(), source.as_str())
            },
        }
    }
}

// ---------------------------------------------------------------------------
// Status codes
// ---------------------------------------------------------------------------

/// The status flags of one entry, as the repository reports them.
#[derive(Debug, Clone, Copy, PartialEq, Eq, Default)]
pub struct StatusFlags {
    pub index_new: bool,
    pub index_modified: bool,
    pub index_deleted: bool,
    pub index_renamed: bool,
    pub index_typechange: bool,
    pub wt_new: bool,
    pub wt_modified: bool,
    pub wt_deleted: bool,
    pub wt_typechange: bool,
    pub wt_renamed: bool,
}

/// The letter for the staged side: the first that applies of new `A`,
/// modified `M`, deleted `D`, renamed `R`, type change `T`; else a space.
pub open spec fn staged_letter(s: StatusFlags) -> char {
    if s.index_new {
        'A'
    } else if s.index_modified {
        'M'
    } else if s.index_deleted {
        'D'
    } else if s.index_renamed {
        'R'
    } else if s.index_typechange {
        'T'
    } else {
        ' '
    }
}

/// The letter for the unstaged side: the first that applies of new `?`,
/// modified `M`, deleted `D`, type change `T`, renamed `R`; else a space.
pub open spec fn unstaged_letter(s: StatusFlags) -> char {
    if s.wt_new {
        '?'
    } else if s.wt_modified {
        'M'
    } else if s.wt_deleted {
        'D'
    } else if s.wt_typechange {
        'T'
    } else if s.wt_renamed {
        'R'
    } else {
        ' '
    }
}

/// The two letters are independent: the staged letter depends on the index
/// flags alone and the unstaged letter on the worktree flags alone.
pub proof fn lemma_status_letters_independent(s: StatusFlags, t: StatusFlags)
    ensures
        s.index_new == t.index_new && s.index_modified == t.index_modified && s.index_deleted
            == t.index_deleted && s.index_renamed == t.index_renamed && s.index_typechange
            == t.index_typechange ==> staged_letter(s) == staged_letter(t),
        s.wt_new == t.wt_new && s.wt_modified == t.wt_modified && s.wt_deleted == t.wt_deleted
            && s.wt_typechange == t.wt_typechange && s.wt_renamed == t.wt_renamed
            ==> unstaged_letter(s) == unstaged_letter(t),
{
}

/// Each flag gives its letter when no flag before it on its side is set,
/// whatever the other side holds: staged `A`, `M`, `D`, `R`, `T` in that
/// order, unstaged `?`, `M`, `D`, `T`, `R` in that order, and a space when no
/// flag of the side is set.
pub proof fn lemma_status_letter_order(s: StatusFlags)
    ensures
        s.index_new ==> staged_letter(s) == 'A',
        !s.index_new && s.index_modified ==> staged_letter(s) == 'M',
        !s.index_new && !s.index_modified && s.index_deleted ==> staged_letter(s) == 'D',
        !s.index_new && !s.index_modified && !s.index_deleted && s.index_renamed ==> staged_letter(
            s,
        ) == 'R',
        !s.index_new && !s.index_modified && !s.index_deleted && !s.index_renamed
            && s.index_typechange ==> staged_letter(s) == 'T',
        !s.index_new && !s.index_modified && !s.index_deleted && !s.index_renamed
            && !s.index_typechange ==> staged_letter(s) == ' ',
        s.wt_new ==> unstaged_letter(s) == '?',
        !s.wt_new && s.wt_modified ==> unstaged_letter(s) == 'M',
        !s.wt_new && !s.wt_modified && s.wt_deleted ==> unstaged_letter(s) == 'D',
        !s.wt_new && !s.wt_modified && !s.wt_deleted && s.wt_typechange ==> unstaged_letter(s)
            == 'T',
        !s.wt_new && !s.wt_modified && !s.wt_deleted && !s.wt_typechange && s.wt_renamed
            ==> unstaged_letter(s) == 'R',
        !s.wt_new && !s.wt_modified && !s.wt_deleted && !s.wt_typechange && !s.wt_renamed
            ==> unstaged_letter(s) == ' ',
{
}

/// The staged letter of a status.
pub fn staged_code(status: StatusFlags) -> (res: char)
    ensures
        res == staged_letter(status),
{
    if status.index_new {
        'A'
    } else if status.index_modified {
        'M'
    } else if status.index_deleted {
        'D'
    } else if status.index_renamed {
        'R'
    } else if status.index_typechange {
        'T'
    } else {
        ' '
    }
}

/// The unstaged letter of a status.
pub fn unstaged_code(status: StatusFlags) -> (res: char)
    ensures
        res == unstaged_letter(status),
{
    if status.wt_new {
        '?'
    } else if status.wt_modified {
        'M'
    } else if status.wt_deleted {
        'D'
    } else if status.wt_typechange {
        'T'
    } else if status.wt_renamed {
        'R'
    } else {
        ' '
    }
}

/// The two-letter code of a status: staged letter, then unstaged letter.
pub fn format_status_code(status: StatusFlags) -> (res: String)
    ensures
        res@ == seq![staged_letter(status), unstaged_letter(status)],
{
    let mut v: Vec<char> = Vec::new();
    v.push(staged_code(status));
    v.push(unstaged_code(status));
    string_from_chars(&v)
}

// ---------------------------------------------------------------------------
// Changed paths
// ---------------------------------------------------------------------------

/// What the repository reports of one status entry: its flags, and the
/// displayed new-file paths of its staged and unstaged deltas and of the
/// entry itself, where there are such.
#[derive(Debug, Clone, PartialEq, Eq)]
pub struct StatusEntryInfo {
    pub status: StatusFlags,
    pub head_to_index_path: Option<String>,
    pub index_to_workdir_path: Option<String>,
    pub entry_path: Option<String>,
}

/// The path shown for an entry: the staged delta's path, else the unstaged
/// delta's path, else the entry's path, else `<unknown>`.
pub open spec fn entry_path_of(e: StatusEntryInfo) -> Seq<char> {
    match e.head_to_index_path {
        Some(p) => p@,
        None => match e.index_to_workdir_path {
            Some(p) => p@,
            None => match e.entry_path {
                Some(p) => p@,
                None => "<unknown>"@,
            },
        },
    }
}

/// The change item of one status entry.
pub fn map_entry(entry: &StatusEntryInfo) -> (res: ChangeItem)
    ensures
        res.code@ == seq![staged_letter(entry.status), unstaged_letter(entry.status)],
        res.path@ == entry_path_of(*entry),
{
    let code = format_status_code(entry.status);
    let path = match &entry.head_to_index_path {
        Some(p) => p.clone(),
        None => match &entry.index_to_workdir_path {
            Some(p) => p.clone(),
            None => match &entry.entry_path {
                Some(p) => p.clone(),
                None => owned("<unknown>"),
            },
        },
    };
    ChangeItem { code, path }
}

/// The paths of a sequence of change items.
pub open spec fn change_paths(items: Seq<ChangeItem>) -> Seq<Seq<char>> {
    items.map_values(|c: ChangeItem| c.path@)
}

/// `output` holds the items of `input` in the order of the index list `p`.
pub open spec fn permuted_by<T>(input: Seq<T>, output: Seq<T>, p: Seq<usize>) -> bool {
    &&& output.len() == p.len()
    &&& forall|k: int| 0 <= k < p.len() ==> #[trigger] output[k] == input[p[k] as int]
}

/// `output` is `input` sorted stably by path.
pub open spec fn sorted_by_path_of(input: Seq<ChangeItem>, output: Seq<ChangeItem>) -> bool {
    exists|p: Seq<usize>|
        #![trigger permuted_by(input, output, p)]
        {
            &&& is_index_permutation(p, input.len())
            &&& stably_sorted_by(change_paths(input), p)
            &&& permuted_by(input, output, p)
        }
}

/// The paths of the items as character vectors.
fn path_keys(items: &Vec<ChangeItem>) -> (res: Vec<Vec<char>>)
    ensures
        views_of(res@) == change_paths(items@),
        res.len() == items.len(),
{
    let mut keys: Vec<Vec<char>> = Vec::new();
    let mut i: usize = 0;
    while i < items.len()
        invariant
            i <= items.len(),
            views_of(keys@) == change_paths(items@.take(i as int)),
            keys.len() == i,
        decreases items.len() - i,
    {
        keys.push(chars_of(items[i].path.as_str()));
        i = i + 1;
        assert(change_paths(items@.take(i as int)) =~= change_paths(items@.take(i - 1)).push(
            items@[i - 1].path@,
        ));
        assert(views_of(keys@) =~= change_paths(items@.take(i as int)));
    }
    assert(items@.take(items.len() as int) =~= items@);
    keys
}

/// The items sorted by path; items with the same path keep their order.
pub fn sort_changes_by_path(items: &Vec<ChangeItem>) -> (res: Vec<ChangeItem>)
    ensures
        sorted_by_path_of(items@, res@),
{
    let keys = path_keys(items);
    let order = stable_order_by(&keys);
    let mut out: Vec<ChangeItem> = Vec::new();
    let mut k: usize = 0;
    while k < order.len()
        invariant
            k <= order.len(),
            is_index_permutation(order@, items.len() as nat),
            out.len() == k,
            forall|j: int| 0 <= j < k ==> #[trigger] out@[j] == items@[order@[j] as int],
        decreases order.len() - k,
    {
        let idx = order[k];
        out.push(items[idx].duplicate());
        k = k + 1;
    }
    assert(permuted_by(items@, out@, order@));
    out
}

/// The change items of a repository's status entries, sorted by path (the
/// computing part of `list_changes`).
pub fn collect_changes(entries: &Vec<StatusEntryInfo>) -> (res: Vec<ChangeItem>)
    ensures
        exists|mapped: Seq<ChangeItem>|
            {
                &&& mapped.len() == entries.len()
                &&& forall|k: int|
                    0 <= k < entries.len() ==> (#[trigger] mapped[k]).path@ == entry_path_of(
                        entries@[k],
                    ) && mapped[k].code@ == seq![
                        staged_letter(entries@[k].status),
                        unstaged_letter(entries@[k].status),
                    ]
                &&& sorted_by_path_of(mapped, res@)
            },
{
    let mut mapped: Vec<ChangeItem> = Vec::new();
    let mut i: usize = 0;
    while i < entries.len()
        invariant
            i <= entries.len(),
            mapped.len() == i,
            forall|k: int|
                0 <= k < i ==> (#[trigger] mapped@[k]).path@ == entry_path_of(entries@[k])
                    && mapped@[k].code@ == seq![
                    staged_letter(entries@[k].status),
                    unstaged_letter(entries@[k].status),
                ],
        decreases entries.len() - i,
    {
        mapped.push(map_entry(&entries[i]));
        i = i + 1;
    }
    sort_changes_by_path(&mapped)
}

// ---------------------------------------------------------------------------
// File listing
// ---------------------------------------------------------------------------

/// What the listing does with one directory entry.
#[derive(Debug, Clone, Copy, PartialEq, Eq)]
pub enum DirEntryAction {
    Skip,
    Descend,
    AddFile,
}

/// The listing skips `.git` and ignored paths, descends into directories and
/// lists files; anything else is skipped.
pub open spec fn dir_entry_action(name: Seq<char>, is_dir: bool, is_file: bool, ignored: bool) -> DirEntryAction {
    if name == ".git"@ {
        DirEntryAction::Skip
    } else if is_dir {
        if ignored {
            DirEntryAction::Skip
        } else {
            DirEntryAction::Descend
        }
    } else if is_file {
        if ignored {
            DirEntryAction::Skip
        } else {
            DirEntryAction::AddFile
        }
    } else {
        DirEntryAction::Skip
    }
}

/// Only the entry named exactly `.git` is skipped for its name: any other
/// name (`.gitignore`, `.github`, `.gitattributes` among them) is descended
/// into when it is a directory and listed when it is a file, unless it is
/// ignored; an ignored entry is never listed or descended into, and an entry
/// that is neither a file nor a directory is skipped.
pub proof fn lemma_dir_entry_rules(name: Seq<char>, is_dir: bool, is_file: bool, ignored: bool)
    ensures
        dir_entry_action(".git"@, is_dir, is_file, ignored) == DirEntryAction::Skip,
        name != ".git"@ && !ignored && is_dir ==> dir_entry_action(name, is_dir, is_file, ignored)
            == DirEntryAction::Descend,
        name != ".git"@ && !ignored && !is_dir && is_file ==> dir_entry_action(
            name,
            is_dir,
            is_file,
            ignored,
        ) == DirEntryAction::AddFile,
        ignored ==> dir_entry_action(name, is_dir, is_file, ignored) == DirEntryAction::Skip,
        !is_dir && !is_file ==> dir_entry_action(name, is_dir, is_file, ignored)
            == DirEntryAction::Skip,
{
}

/// The names `.gitignore`, `.github` and `.gitattributes` are listed as any
/// other name is.
pub proof fn lemma_git_prefixed_names_listed(is_dir: bool, is_file: bool)
    ensures
        !is_dir && is_file ==> dir_entry_action(".gitignore"@, is_dir, is_file, false)
            == DirEntryAction::AddFile,
        !is_dir && is_file ==> dir_entry_action(".gitattributes"@, is_dir, is_file, false)
            == DirEntryAction::AddFile,
        is_dir ==> dir_entry_action(".github"@, is_dir, is_file, false) == DirEntryAction::Descend,
{
    reveal_strlit(".git");
    reveal_strlit(".gitignore");
    reveal_strlit(".gitattributes");
    reveal_strlit(".github");
    assert(".gitignore"@.len() != ".git"@.len());
    assert(".gitattributes"@.len() != ".git"@.len());
    assert(".github"@.len() != ".git"@.len());
    lemma_dir_entry_rules(".gitignore"@, is_dir, is_file, false);
    lemma_dir_entry_rules(".gitattributes"@, is_dir, is_file, false);
    lemma_dir_entry_rules(".github"@, is_dir, is_file, false);
}

/// What to do with a directory entry of the given name and kind.
pub fn classify_dir_entry(name: &str, is_dir: bool, is_file: bool, ignored: bool) -> (res:
    DirEntryAction)
    ensures
        res == dir_entry_action(name@, is_dir, is_file, ignored),
{
    if str_equal(name, ".git") {
        DirEntryAction::Skip
    } else if is_dir {
        if ignored {
            DirEntryAction::Skip
        } else {
            DirEntryAction::Descend
        }
    } else if is_file {
        if ignored {
            DirEntryAction::Skip
        } else {
            DirEntryAction::AddFile
        }
    } else {
        DirEntryAction::Skip
    }
}

/// A relative path written with `/` between its parts.
pub fn relative_path_text(relative: &str) -> (res: String)
    ensures
        res@ == replace_char_seq(relative@, '\\', '/'),
{
    replace_char(relative, '\\', '/')
}

/// The character sequences of a sequence of strings.
pub open spec fn string_views(v: Seq<String>) -> Seq<Seq<char>> {
    v.map_values(|s: String| s@)
}

/// The strings as character vectors.
pub fn string_keys(v: &Vec<String>) -> (res: Vec<Vec<char>>)
    ensures
        views_of(res@) == string_views(v@),
        res.len() == v.len(),
{
    let mut keys: Vec<Vec<char>> = Vec::new();
    let mut i: usize = 0;
    while i < v.len()
        invariant
            i <= v.len(),
            views_of(keys@) == string_views(v@.take(i as int)),
            keys.len() == i,
        decreases v.len() - i,
    {
        keys.push(chars_of(v[i].as_str()));
        i = i + 1;
        assert(string_views(v@.take(i as int)) =~= string_views(v@.take(i - 1)).push(v@[i - 1]@));
        assert(views_of(keys@) =~= string_views(v@.take(i as int)));
    }
    assert(v@.take(v.len() as int) =~= v@);
    keys
}

/// Whether `s` is one of the strings.
pub fn contains_string(list: &Vec<String>, s: &str) -> (res: bool)
    ensures
        res == string_views(list@).contains(s@),
{
    let mut i: usize = 0;
    while i < list.len()
        invariant
            i <= list.len(),
            forall|k: int| 0 <= k < i ==> list@[k]@ != s@,
        decreases list.len() - i,
    {
        if str_equal(list[i].as_str(), s) {
            assert(string_views(list@)[i as int] == s@);
            return true;
        }
        i = i + 1;
    }
    proof {
        if string_views(list@).contains(s@) {
            let k = choose|k: int| 0 <= k < string_views(list@).len() && string_views(list@)[k] == s@;
            assert(list@[k]@ == s@);
        }
    }
    false
}

/// The strings in ascending order, as `sort` on a vector of strings gives.
pub fn sort_strings(v: &Vec<String>) -> (res: Vec<String>)
    ensures
        exists|p: Seq<usize>|
            #![trigger permuted_by(v@, res@, p)]
            is_index_permutation(p, v.len() as nat) && permuted_by(v@, res@, p),
        forall|a: int, b: int| 0 <= a < b < res.len() ==> seq_le(#[trigger] res@[a]@, #[trigger] res@[b]@),
{
    let keys = string_keys(v);
    let order = stable_order_by(&keys);
    let mut out: Vec<String> = Vec::new();
    let mut k: usize = 0;
    while k < order.len()
        invariant
            k <= order.len(),
            is_index_permutation(order@, v.len() as nat),
            out.len() == k,
            forall|j: int| 0 <= j < k ==> #[trigger] out@[j] == v@[order@[j] as int],
        decreases order.len() - k,
    {
        let idx = order[k];
        out.push(v[idx].clone());
        k = k + 1;
    }
    assert(permuted_by(v@, out@, order@));
    assert forall|a: int, b: int| 0 <= a < b < out.len() implies seq_le(#[trigger] out@[a]@, #[trigger] out@[b]@) by {
        let i = order@[a] as int;
        let j = order@[b] as int;
        assert(views_of(keys@)[i] == v@[i]@);
        assert(views_of(keys@)[j] == v@[j]@);
    }
    out
}

// ---------------------------------------------------------------------------
// Diff text
// ---------------------------------------------------------------------------

/// Decodes a line of patch output by `std::str::from_utf8`, which accepts
/// exactly the well-formed UTF-8 byte sequences; the contract claims that the
/// result is present exactly for those and then holds their decoding.
#[verifier::external_body]
fn utf8_line(bytes: &[u8]) -> (res: Option<String>)
    ensures
        res is Some <==> vstd::utf8::valid_utf8(bytes@),
        res matches Some(s) ==> s@ == vstd::utf8::decode_utf8(bytes@),
{
    std::str::from_utf8(bytes).ok().map(|s| s.to_string())
}

/// The text of patch lines: the lines that are well-formed UTF-8, decoded and
/// joined; the others are left out.
pub open spec fn patch_text(lines: Seq<Seq<u8>>) -> Seq<char>
    decreases lines.len(),
{
    if lines.len() == 0 {
        Seq::empty()
    } else {
        let last = lines.last();
        patch_text(lines.drop_last()) + if vstd::utf8::valid_utf8(last) {
            vstd::utf8::decode_utf8(last)
        } else {
            Seq::empty()
        }
    }
}

/// The byte sequences of a sequence of byte vectors.
pub open spec fn byte_views(lines: Seq<Vec<u8>>) -> Seq<Seq<u8>> {
    lines.map_values(|l: Vec<u8>| l@)
}

/// The text of a patch from the contents of its lines (the computing part of
/// rendering a diff).
pub fn render_patch_lines(lines: &Vec<Vec<u8>>) -> (res: String)
    ensures
        res@ == patch_text(byte_views(lines@)),
{
    let mut out: Vec<char> = Vec::new();
    let mut i: usize = 0;
    while i < lines.len()
        invariant
            i <= lines.len(),
            out@ == patch_text(byte_views(lines@.take(i as int))),
        decreases lines.len() - i,
    {
        let decoded = utf8_line(lines[i].as_slice());
        let ghost before = out@;
        match decoded {
            Some(text) => {
                let mut t = chars_of(text.as_str());
                out.append(&mut t);
            },
            None => {},
        }
        i = i + 1;
        proof {
            let prev = byte_views(lines@.take(i - 1));
            let cur = byte_views(lines@.take(i as int));
            assert(cur.drop_last() =~= prev);
            assert(cur.last() == lines@[i - 1]@);
            if !vstd::utf8::valid_utf8(cur.last()) {
                assert(out@ =~= before + Seq::<char>::empty());
            }
        }
    }
    assert(lines@.take(lines.len() as int) =~= lines@);
    string_from_chars(&out)
}

/// The staged and unstaged sections of a diff report.
pub open spec fn diff_sections(staged: Option<Seq<char>>, unstaged: Option<Seq<char>>) -> Seq<char> {
    let first = match staged {
        Some(s) => "## Staged\n"@ + s + "\n"@,
        None => Seq::empty(),
    };
    let second = match unstaged {
        Some(u) => "## Unstaged\n"@ + u,
        None => Seq::empty(),
    };
    first + second
}

/// The view of an optional string.
pub open spec fn opt_view(o: Option<String>) -> Option<Seq<char>> {
    match o {
        Some(s) => Some(s@),
        None => None,
    }
}

/// A diff report: the staged section when the staged diff has changes, then
/// the unstaged section when it has; `empty_message` when the sections hold
/// nothing but white space.
pub fn diff_report(staged: Option<String>, unstaged: Option<String>, empty_message: &str) -> (res:
    String)
    ensures
        trim_seq(diff_sections(opt_view(staged), opt_view(unstaged))).len() == 0 ==> res@
            == empty_message@,
        trim_seq(diff_sections(opt_view(staged), opt_view(unstaged))).len() != 0 ==> res@
            == diff_sections(opt_view(staged), opt_view(unstaged)),
{
    let mut out: Vec<char> = Vec::new();
    match &staged {
        Some(s) => {
            let mut a = chars_of("## Staged\n");
            let mut b = chars_of(s.as_str());
            let mut c = chars_of("\n");
            out.append(&mut a);
            out.append(&mut b);
            out.append(&mut c);
        },
        None => {},
    }
    match &unstaged {
        Some(u) => {
            let mut a = chars_of("## Unstaged\n");
            let mut b = chars_of(u.as_str());
            out.append(&mut a);
            out.append(&mut b);
        },
        None => {},
    }
    let text = string_from_chars(&out);
    assert(text@ =~= diff_sections(opt_view(staged), opt_view(unstaged)));
    if is_blank(text.as_str()) {
        owned(empty_message)
    } else {
        text
    }
}

/// The report text when the repository has no changes.
pub fn no_diff_message() -> (res: String)
    ensures
        res@ == "No diff changes."@,
{
    owned("No diff changes.")
}

/// The report text when a path has no changes.
pub fn no_diff_message_for_path(relative_path: &str) -> (res: String)
    ensures
        res@ == "No diff changes for "@ + relative_path@ + "."@,
{
    concat3("No diff changes for ", relative_path, ".")
}

} // verus!
