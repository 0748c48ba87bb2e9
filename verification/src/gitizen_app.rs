//! The state of the Gitizen window and what it does with what the repository
//! reports: refreshing, keeping selections valid, and the texts it shows.
use vstd::prelude::*;

use crate::branches_view::{BranchPanelState, BranchScope};
use crate::diff_code_view::{DiffRenderMode, SplitDiffModel};
use crate::diff_view::DiffPanelState;
use crate::git_status::{
    ChangeItem, GitStatusError, change_paths, contains_string, error_message, string_views,
};
use crate::text::{
    chars_of, concat2, concat3, owned, starts_with_chars, starts_with_seq, str_equal,
};

verus! {

broadcast use vstd::string::group_string_axioms;

/// The view of the left panel.
#[derive(Debug, Clone, Copy, PartialEq, Eq)]
pub enum LeftView {
    Files,
    Diff,
    Branches,
}

/// Everything the window shows and remembers.
#[derive(Debug)]
pub struct GitizenApp {
    pub workspace: String,
    pub changes: Vec<ChangeItem>,
    pub files: Vec<String>,
    pub selected_file: Option<String>,
    pub selected_file_content: String,
    pub local_branches: Vec<String>,
    pub remote_branches: Vec<String>,
    pub selected_local_branch: Option<String>,
    pub selected_remote_branch: Option<String>,
    pub branch_panel_state: BranchPanelState,
    pub diff_output: String,
    pub selected_diff_path: Option<String>,
    pub selected_diff_output: String,
    pub selected_split_diff: SplitDiffModel,
    pub diff_render_mode: DiffRenderMode,
    pub diff_panel_state: DiffPanelState,
    pub left_panel_open: bool,
    pub left_view: LeftView,
    pub error: Option<String>,
}

/// Whether `s` is the path of one of the changes.
pub fn contains_change_path(changes: &Vec<ChangeItem>, s: &str) -> (res: bool)
    ensures
        res == change_paths(changes@).contains(s@),
{
    let mut i: usize = 0;
    while i < changes.len()
        invariant
            i <= changes.len(),
            forall|k: int| 0 <= k < i ==> changes@[k].path@ != s@,
        decreases changes.len() - i,
    {
        if str_equal(changes[i].path.as_str(), s) {
            assert(change_paths(changes@)[i as int] == s@);
            return true;
        }
        i = i + 1;
    }
    proof {
        if change_paths(changes@).contains(s@) {
            let k = choose|k: int| 0 <= k < change_paths(changes@).len() && change_paths(changes@)[k] == s@;
            assert(changes@[k].path@ == s@);
        }
    }
    false
}

/// The file selection after the file list changed: kept while it is listed,
/// else the first file, if any.
pub open spec fn reselected_file(selected: Option<String>, files: Seq<String>) -> Option<String> {
    match selected {
        Some(s) => if string_views(files).contains(s@) {
            Some(s)
        } else if files.len() > 0 {
            Some(files[0])
        } else {
            None
        },
        None => if files.len() > 0 {
            Some(files[0])
        } else {
            None
        },
    }
}

/// A selection among names: kept while the name is listed, else cleared.
pub open spec fn kept_if_listed(selected: Option<String>, names: Seq<Seq<char>>) -> Option<String> {
    match selected {
        Some(s) => if names.contains(s@) {
            Some(s)
        } else {
            None
        },
        None => None,
    }
}

/// The selections name listed things: a selected file is listed (and there
/// is one whenever files are listed), a selected changed path is a change,
/// and selected branches are listed branches.
pub open spec fn selections_valid(a: GitizenApp) -> bool {
    &&& (a.selected_file matches Some(f) ==> string_views(a.files@).contains(f@))
    &&& (a.files@.len() > 0 ==> a.selected_file is Some)
    &&& (a.selected_diff_path matches Some(p) ==> change_paths(a.changes@).contains(p@))
    &&& (a.selected_local_branch matches Some(b) ==> string_views(a.local_branches@).contains(
        b@,
    ))
    &&& (a.selected_remote_branch matches Some(b) ==> string_views(
        a.remote_branches@,
    ).contains(b@))
}

/// The fields that a refresh leaves alone.
pub open spec fn same_settings(a: GitizenApp, b: GitizenApp) -> bool {
    &&& a.workspace == b.workspace
    &&& a.branch_panel_state == b.branch_panel_state
    &&& a.diff_render_mode == b.diff_render_mode
    &&& a.diff_panel_state == b.diff_panel_state
    &&& a.left_panel_open == b.left_panel_open
    &&& a.left_view == b.left_view
}

/// The message of the first error among the results, in the order changes,
/// files, diff, local branches, remote branches.
pub open spec fn first_error(
    changes: Result<Vec<ChangeItem>, GitStatusError>,
    files: Result<Vec<String>, GitStatusError>,
    diff: Result<String, GitStatusError>,
    local: Result<Vec<String>, GitStatusError>,
    remote: Result<Vec<String>, GitStatusError>,
) -> Option<GitStatusError> {
    if changes is Err {
        Some(changes->Err_0)
    } else if files is Err {
        Some(files->Err_0)
    } else if diff is Err {
        Some(diff->Err_0)
    } else if local is Err {
        Some(local->Err_0)
    } else if remote is Err {
        Some(remote->Err_0)
    } else {
        None
    }
}


/// What a refresh does, from the state before (`a`) to the state after
/// (`b`), given what it read and what it returned (`res`). When every read
/// succeeded (`res`), the window shows the new data and keeps only
/// selections of listed things, a file being selected whenever files are
/// listed; when a read failed, the window is emptied and shows the first
/// error. The settings stay as they were either way.
pub open spec fn refresh_outcome(
    a: GitizenApp,
    b: GitizenApp,
    changes: Result<Vec<ChangeItem>, GitStatusError>,
    files: Result<Vec<String>, GitStatusError>,
    diff: Result<String, GitStatusError>,
    local_branches: Result<Vec<String>, GitStatusError>,
    remote_branches: Result<Vec<String>, GitStatusError>,
    res: bool,
) -> bool {
    &&& same_settings(a, b)
    &&& res == (first_error(changes, files, diff, local_branches, remote_branches) is None)
    &&& res ==> {
        &&& b.error is None
        &&& b.changes == changes->Ok_0
        &&& b.files == files->Ok_0
        &&& b.diff_output == diff->Ok_0
        &&& b.local_branches == local_branches->Ok_0
        &&& b.remote_branches == remote_branches->Ok_0
        &&& b.selected_file == reselected_file(a.selected_file, (files->Ok_0)@)
        &&& b.selected_diff_path == kept_if_listed(
            a.selected_diff_path,
            change_paths((changes->Ok_0)@),
        )
        &&& b.selected_local_branch == kept_if_listed(
            a.selected_local_branch,
            string_views((local_branches->Ok_0)@),
        )
        &&& b.selected_remote_branch == kept_if_listed(
            a.selected_remote_branch,
            string_views((remote_branches->Ok_0)@),
        )
        &&& b.selected_file_content == a.selected_file_content
        &&& b.selected_diff_output == a.selected_diff_output
        &&& b.selected_split_diff == a.selected_split_diff
        &&& selections_valid(b)
    }
    &&& !res ==> {
        &&& b.error matches Some(m) && m@ == error_message(
            first_error(changes, files, diff, local_branches, remote_branches)->Some_0,
        )
        &&& b.changes@.len() == 0
        &&& b.files@.len() == 0
        &&& b.selected_file is None
        &&& b.selected_file_content@.len() == 0
        &&& b.local_branches@.len() == 0
        &&& b.remote_branches@.len() == 0
        &&& b.selected_local_branch is None
        &&& b.selected_remote_branch is None
        &&& b.diff_output@.len() == 0
        &&& b.selected_diff_path is None
        &&& b.selected_diff_output@.len() == 0
        &&& b.selected_split_diff.rows@.len() == 0
        &&& selections_valid(b)
    }
}

/// A successful refresh keeps each selection exactly while it is listed in
/// what was read: a selected file, changed path, local branch or remote
/// branch that is still listed stays selected, one that is no longer listed
/// is cleared (the file selection then moves to the first file, if any), and
/// an empty selection of a branch or changed path stays empty.
pub proof fn lemma_refresh_keeps_listed_selections(
    a: GitizenApp,
    b: GitizenApp,
    changes: Result<Vec<ChangeItem>, GitStatusError>,
    files: Result<Vec<String>, GitStatusError>,
    diff: Result<String, GitStatusError>,
    local_branches: Result<Vec<String>, GitStatusError>,
    remote_branches: Result<Vec<String>, GitStatusError>,
)
    requires
        refresh_outcome(a, b, changes, files, diff, local_branches, remote_branches, true),
    ensures
        changes is Ok && files is Ok && diff is Ok && local_branches is Ok && remote_branches is Ok,
        a.selected_remote_branch matches Some(s) ==> (b.selected_remote_branch == Some(s)
            <==> exists|k: int|
            0 <= k < (remote_branches->Ok_0)@.len() && #[trigger] (remote_branches->Ok_0)@[k]@
                == s@),
        a.selected_remote_branch matches Some(s) ==> (b.selected_remote_branch is None
            <==> !exists|k: int|
            0 <= k < (remote_branches->Ok_0)@.len() && #[trigger] (remote_branches->Ok_0)@[k]@
                == s@),
        a.selected_local_branch matches Some(s) ==> (b.selected_local_branch == Some(s)
            <==> exists|k: int|
            0 <= k < (local_branches->Ok_0)@.len() && #[trigger] (local_branches->Ok_0)@[k]@
                == s@),
        a.selected_local_branch matches Some(s) ==> (b.selected_local_branch is None
            <==> !exists|k: int|
            0 <= k < (local_branches->Ok_0)@.len() && #[trigger] (local_branches->Ok_0)@[k]@
                == s@),
        a.selected_diff_path matches Some(s) ==> (b.selected_diff_path == Some(s)
            <==> exists|k: int|
            0 <= k < (changes->Ok_0)@.len() && #[trigger] (changes->Ok_0)@[k].path@ == s@),
        a.selected_diff_path matches Some(s) ==> (b.selected_diff_path is None
            <==> !exists|k: int|
            0 <= k < (changes->Ok_0)@.len() && #[trigger] (changes->Ok_0)@[k].path@ == s@),
        a.selected_file matches Some(s) ==> ((exists|k: int|
            0 <= k < (files->Ok_0)@.len() && #[trigger] (files->Ok_0)@[k]@ == s@)
            ==> b.selected_file == Some(s)),
        (a.selected_file matches Some(s) && !exists|k: int|
            0 <= k < (files->Ok_0)@.len() && #[trigger] (files->Ok_0)@[k]@ == s@) || a.selected_file
            is None ==> b.selected_file == if (files->Ok_0)@.len() > 0 {
            Some((files->Ok_0)@[0])
        } else {
            None
        },
        a.selected_remote_branch is None ==> b.selected_remote_branch is None,
        a.selected_local_branch is None ==> b.selected_local_branch is None,
        a.selected_diff_path is None ==> b.selected_diff_path is None,
{
    let r = (remote_branches->Ok_0)@;
    let l = (local_branches->Ok_0)@;
    let c = (changes->Ok_0)@;
    let f = (files->Ok_0)@;
    if let Some(s) = a.selected_remote_branch {
        if string_views(r).contains(s@) {
            let k = choose|k: int| 0 <= k < string_views(r).len() && string_views(r)[k] == s@;
            assert(r[k]@ == s@);
        }
        if exists|k: int| 0 <= k < r.len() && #[trigger] r[k]@ == s@ {
            let k = choose|k: int| 0 <= k < r.len() && #[trigger] r[k]@ == s@;
            assert(string_views(r)[k] == s@);
        }
    }
    if let Some(s) = a.selected_local_branch {
        if string_views(l).contains(s@) {
            let k = choose|k: int| 0 <= k < string_views(l).len() && string_views(l)[k] == s@;
            assert(l[k]@ == s@);
        }
        if exists|k: int| 0 <= k < l.len() && #[trigger] l[k]@ == s@ {
            let k = choose|k: int| 0 <= k < l.len() && #[trigger] l[k]@ == s@;
            assert(string_views(l)[k] == s@);
        }
    }
    if let Some(s) = a.selected_diff_path {
        if change_paths(c).contains(s@) {
            let k = choose|k: int| 0 <= k < change_paths(c).len() && change_paths(c)[k] == s@;
            assert(c[k].path@ == s@);
        }
        if exists|k: int| 0 <= k < c.len() && #[trigger] c[k].path@ == s@ {
            let k = choose|k: int| 0 <= k < c.len() && #[trigger] c[k].path@ == s@;
            assert(change_paths(c)[k] == s@);
        }
    }
    if let Some(s) = a.selected_file {
        if string_views(f).contains(s@) {
            let k = choose|k: int| 0 <= k < string_views(f).len() && string_views(f)[k] == s@;
            assert(f[k]@ == s@);
        }
        if exists|k: int| 0 <= k < f.len() && #[trigger] f[k]@ == s@ {
            let k = choose|k: int| 0 <= k < f.len() && #[trigger] f[k]@ == s@;
            assert(string_views(f)[k] == s@);
        }
    }
}

/// Loading the file text: the text read, the error in a message, or
/// `No file selected.` when nothing was read; nothing else changes.
pub open spec fn file_load_outcome(
    a: GitizenApp,
    b: GitizenApp,
    loaded: Option<Result<String, GitStatusError>>,
) -> bool {
    &&& b.selected_file_content@ == match loaded {
        None => "No file selected."@,
        Some(Ok(text)) => text@,
        Some(Err(e)) => "Unable to read file:\n"@ + error_message(e),
    }
    &&& b == (GitizenApp { selected_file_content: b.selected_file_content, ..a })
}

/// Loading the diff: the whole diff when no path was read, else the diff of
/// the path or its error in a message; the side-by-side model given, or an
/// empty one; nothing else changes.
pub open spec fn diff_load_outcome(
    a: GitizenApp,
    b: GitizenApp,
    loaded: Option<(String, Result<String, GitStatusError>)>,
    split: Option<SplitDiffModel>,
) -> bool {
    &&& b.selected_diff_output@ == match loaded {
        None => a.diff_output@,
        Some((_, Ok(text))) => text@,
        Some((path, Err(e))) => "Unable to load diff for "@ + path@ + ":\n"@ + error_message(e),
    }
    &&& split matches Some(m) ==> b.selected_split_diff == m
    &&& split is None ==> b.selected_split_diff.rows@.len() == 0
    &&& b == (GitizenApp {
        selected_diff_output: b.selected_diff_output,
        selected_split_diff: b.selected_split_diff,
        ..a
    })
}

/// A refresh and, when it succeeded, the loads of the selected file and diff
/// that follow it: `a` before, `r` after the refresh, `f` after the file
/// load, `b` at the end.
pub open spec fn refresh_cycle(
    a: GitizenApp,
    r: GitizenApp,
    f: GitizenApp,
    b: GitizenApp,
    changes: Result<Vec<ChangeItem>, GitStatusError>,
    files: Result<Vec<String>, GitStatusError>,
    diff: Result<String, GitStatusError>,
    local_branches: Result<Vec<String>, GitStatusError>,
    remote_branches: Result<Vec<String>, GitStatusError>,
    file_loaded: Option<Result<String, GitStatusError>>,
    diff_loaded: Option<(String, Result<String, GitStatusError>)>,
    split: Option<SplitDiffModel>,
) -> bool {
    let ok = first_error(changes, files, diff, local_branches, remote_branches) is None;
    &&& refresh_outcome(a, r, changes, files, diff, local_branches, remote_branches, ok)
    &&& ok ==> file_load_outcome(r, f, file_loaded) && diff_load_outcome(f, b, diff_loaded, split)
    &&& !ok ==> b == r
}

/// The view of an optional string.
pub open spec fn opt_text(o: Option<String>) -> Option<Seq<char>> {
    match o {
        Some(s) => Some(s@),
        None => None,
    }
}

/// The two states show the same: every field equal, strings and lists by
/// their contents.
pub open spec fn shows_same(a: GitizenApp, b: GitizenApp) -> bool {
    &&& a.workspace@ == b.workspace@
    &&& a.changes@ == b.changes@
    &&& a.files@ == b.files@
    &&& opt_text(a.selected_file) == opt_text(b.selected_file)
    &&& a.selected_file_content@ == b.selected_file_content@
    &&& a.local_branches@ == b.local_branches@
    &&& a.remote_branches@ == b.remote_branches@
    &&& opt_text(a.selected_local_branch) == opt_text(b.selected_local_branch)
    &&& opt_text(a.selected_remote_branch) == opt_text(b.selected_remote_branch)
    &&& a.branch_panel_state == b.branch_panel_state
    &&& a.diff_output@ == b.diff_output@
    &&& opt_text(a.selected_diff_path) == opt_text(b.selected_diff_path)
    &&& a.selected_diff_output@ == b.selected_diff_output@
    &&& a.selected_split_diff.rows@ == b.selected_split_diff.rows@
    &&& a.diff_render_mode == b.diff_render_mode
    &&& a.diff_panel_state == b.diff_panel_state
    &&& a.left_panel_open == b.left_panel_open
    &&& a.left_view == b.left_view
    &&& opt_text(a.error) == opt_text(b.error)
}

proof fn lemma_reselected_stable(selected: Option<String>, files: Seq<String>)
    ensures
        reselected_file(reselected_file(selected, files), files) == reselected_file(selected, files),
{
    if files.len() > 0 {
        assert(string_views(files)[0] == files[0]@);
    }
}

/// Refreshing again from unchanged reads, and loading the same file and diff
/// again, changes nothing that the window shows.
pub proof fn lemma_refresh_idempotent(
    s0: GitizenApp,
    r1: GitizenApp,
    f1: GitizenApp,
    s1: GitizenApp,
    r2: GitizenApp,
    f2: GitizenApp,
    s2: GitizenApp,
    changes: Result<Vec<ChangeItem>, GitStatusError>,
    files: Result<Vec<String>, GitStatusError>,
    diff: Result<String, GitStatusError>,
    local_branches: Result<Vec<String>, GitStatusError>,
    remote_branches: Result<Vec<String>, GitStatusError>,
    file_loaded: Option<Result<String, GitStatusError>>,
    diff_loaded: Option<(String, Result<String, GitStatusError>)>,
    split: Option<SplitDiffModel>,
)
    requires
        refresh_cycle(
            s0,
            r1,
            f1,
            s1,
            changes,
            files,
            diff,
            local_branches,
            remote_branches,
            file_loaded,
            diff_loaded,
            split,
        ),
        refresh_cycle(
            s1,
            r2,
            f2,
            s2,
            changes,
            files,
            diff,
            local_branches,
            remote_branches,
            file_loaded,
            diff_loaded,
            split,
        ),
    ensures
        shows_same(s2, s1),
{
    let ok = first_error(changes, files, diff, local_branches, remote_branches) is None;
    if ok {
        lemma_reselected_stable(s0.selected_file, (files->Ok_0)@);
        assert(s1.selected_file == r1.selected_file);
        assert(r2.selected_file == s1.selected_file);
        assert(r2.selected_diff_path == s1.selected_diff_path);
        assert(r2.selected_local_branch == s1.selected_local_branch);
        assert(r2.selected_remote_branch == s1.selected_remote_branch);
        if split is None {
            assert(s2.selected_split_diff.rows@ =~= s1.selected_split_diff.rows@);
        }
    } else {
        assert(s2.changes@ =~= s1.changes@);
        assert(s2.files@ =~= s1.files@);
        assert(s2.local_branches@ =~= s1.local_branches@);
        assert(s2.remote_branches@ =~= s1.remote_branches@);
        assert(s2.selected_file_content@ =~= s1.selected_file_content@);
        assert(s2.diff_output@ =~= s1.diff_output@);
        assert(s2.selected_diff_output@ =~= s1.selected_diff_output@);
        assert(s2.selected_split_diff.rows@ =~= s1.selected_split_diff.rows@);
    }
}

impl GitizenApp {
    /// A window on a workspace, before its first refresh.
    pub fn new(workspace: String) -> (res: Self)
        ensures
            res.workspace == workspace,
            res.changes@.len() == 0,
            res.files@.len() == 0,
            res.selected_file is None,
            res.selected_file_content@.len() == 0,
            res.local_branches@.len() == 0,
            res.remote_branches@.len() == 0,
            res.selected_local_branch is None,
            res.selected_remote_branch is None,
            res.branch_panel_state.scope == BranchScope::Local,
            !res.branch_panel_state.grouped,
            res.diff_output@.len() == 0,
            res.selected_diff_path is None,
            res.selected_diff_output@.len() == 0,
            res.selected_split_diff.rows@.len() == 0,
            res.diff_render_mode == DiffRenderMode::Unified,
            res.diff_panel_state.mode == crate::diff_view::DiffDisplayMode::Tree,
            res.diff_panel_state.sort_key == crate::diff_view::DiffSortKey::Path,
            res.diff_panel_state.sort_order == crate::diff_view::SortOrder::Asc,
            res.left_panel_open,
            res.left_view == LeftView::Files,
            res.error is None,
            selections_valid(res),
    {
        GitizenApp {
            workspace,
            changes: Vec::new(),
            files: Vec::new(),
            selected_file: None,
            selected_file_content: String::new(),
            local_branches: Vec::new(),
            remote_branches: Vec::new(),
            selected_local_branch: None,
            selected_remote_branch: None,
            branch_panel_state: BranchPanelState::default(),
            diff_output: String::new(),
            selected_diff_path: None,
            selected_diff_output: String::new(),
            selected_split_diff: SplitDiffModel::default(),
            diff_render_mode: DiffRenderMode::default(),
            diff_panel_state: DiffPanelState::default(),
            left_panel_open: true,
            left_view: LeftView::Files,
            error: None,
        }
    }

    /// Takes in what a refresh read from the repository. When every read
    /// succeeded, the window shows the new data and keeps only selections of
    /// listed things (a file is always selected while files are listed), and
    /// `true` comes back: the selected file and diff are to be loaded next.
    /// When a read failed, the window is emptied, shows the first error, and
    /// `false` comes back.
    #[verifier::rlimit(60)]
    pub fn refresh(
        &mut self,
        changes: Result<Vec<ChangeItem>, GitStatusError>,
        files: Result<Vec<String>, GitStatusError>,
        diff: Result<String, GitStatusError>,
        local_branches: Result<Vec<String>, GitStatusError>,
        remote_branches: Result<Vec<String>, GitStatusError>,
    ) -> (res: bool)
        ensures
            refresh_outcome(
                *old(self),
                *final(self),
                changes,
                files,
                diff,
                local_branches,
                remote_branches,
                res,
            ),
    {
        let first = match (&changes, &files, &diff, &local_branches, &remote_branches) {
            (Err(e), _, _, _, _) => Some(e.message()),
            (_, Err(e), _, _, _) => Some(e.message()),
            (_, _, Err(e), _, _) => Some(e.message()),
            (_, _, _, Err(e), _) => Some(e.message()),
            (_, _, _, _, Err(e)) => Some(e.message()),
            _ => None,
        };
        if let Some(message) = first {
            self.changes = Vec::new();
            self.files = Vec::new();
            self.selected_file = None;
            self.selected_file_content = String::new();
            self.local_branches = Vec::new();
            self.remote_branches = Vec::new();
            self.selected_local_branch = None;
            self.selected_remote_branch = None;
            self.diff_output = String::new();
            self.selected_diff_path = None;
            self.selected_diff_output = String::new();
            self.selected_split_diff = SplitDiffModel::default();
            self.error = Some(message);
            return false;
        }
        match (changes, files, diff, local_branches, remote_branches) {
            (Ok(changes), Ok(files), Ok(diff_output), Ok(local), Ok(remote)) => {
                self.error = None;
                self.changes = changes;
                self.files = files;
                self.diff_output = diff_output;
                self.local_branches = local;
                self.remote_branches = remote;
                let selected_missing = match &self.selected_file {
                    Some(selected) => !contains_string(&self.files, selected.as_str()),
                    None => true,
                };
                if selected_missing {
                    self.selected_file = if self.files.len() > 0 {
                        Some(self.files[0].clone())
                    } else {
                        None
                    };
                }
                let diff_missing = match &self.selected_diff_path {
                    Some(selected) => !contains_change_path(&self.changes, selected.as_str()),
                    None => false,
                };
                if diff_missing {
                    self.selected_diff_path = None;
                }
                let local_missing = match &self.selected_local_branch {
                    Some(selected) => !contains_string(&self.local_branches, selected.as_str()),
                    None => false,
                };
                if local_missing {
                    self.selected_local_branch = None;
                }
                let remote_missing = match &self.selected_remote_branch {
                    Some(selected) => !contains_string(&self.remote_branches, selected.as_str()),
                    None => false,
                };
                if remote_missing {
                    self.selected_remote_branch = None;
                }
                proof {
                    if self.files@.len() > 0 {
                        assert(string_views(self.files@)[0] == self.files@[0]@);
                    }
                }
                true
            },
            _ => false,
        }
    }

    /// The file to read for the editor, if one is selected.
    pub fn file_read_request(&self) -> (res: Option<String>)
        ensures
            res == self.selected_file,
    {
        self.selected_file.clone()
    }

    /// Takes in the read of the selected file: its text, or the error in a
    /// message; `No file selected.` when nothing was read.
    pub fn load_selected_file_content(&mut self, loaded: Option<Result<String, GitStatusError>>)
        ensures
            file_load_outcome(*old(self), *final(self), loaded),
    {
        self.selected_file_content = match loaded {
            None => owned("No file selected."),
            Some(Ok(text)) => text,
            Some(Err(e)) => concat2("Unable to read file:\n", e.message().as_str()),
        };
    }

    /// The changed path whose diff to read, if one is selected; with none,
    /// the whole diff is shown.
    pub fn diff_read_request(&self) -> (res: Option<String>)
        ensures
            res == self.selected_diff_path,
    {
        self.selected_diff_path.clone()
    }

    /// Takes in the diff read for a selected path (with that path), or
    /// nothing when no path is selected, and the side-by-side model if one
    /// could be made. Without a path the whole diff is shown; a failed read
    /// shows its error; a missing model shows an empty one.
    pub fn load_selected_diff_content(
        &mut self,
        loaded: Option<(String, Result<String, GitStatusError>)>,
        split: Option<SplitDiffModel>,
    )
        ensures
            diff_load_outcome(*old(self), *final(self), loaded, split),
    {
        self.selected_diff_output = match loaded {
            None => self.diff_output.clone(),
            Some((_, Ok(text))) => text,
            Some((path, Err(e))) => {
                let head = concat3("Unable to load diff for ", path.as_str(), ":\n");
                concat2(head.as_str(), e.message().as_str())
            },
        };
        self.selected_split_diff = match split {
            Some(m) => m,
            None => SplitDiffModel::default(),
        };
    }

    /// Shows or hides the left panel.
    pub fn toggle_left_panel(&mut self)
        ensures
            *final(self) == (GitizenApp { left_panel_open: !old(self).left_panel_open, ..*old(self) }),
    {
        self.left_panel_open = !self.left_panel_open;
    }

    /// The label of the button that shows or hides the left panel.
    pub fn left_panel_toggle_label(&self) -> (res: &'static str)
        ensures
            self.left_panel_open ==> res@ == "Hide Left Panel"@,
            !self.left_panel_open ==> res@ == "Show Left Panel"@,
    {
        if self.left_panel_open {
            "Hide Left Panel"
        } else {
            "Show Left Panel"
        }
    }

    /// Selects a listed file for the editor (its text is to be loaded next).
    /// A path that is not listed leaves the window as it was; the result
    /// tells whether the file was selected.
    pub fn select_file(&mut self, path: String) -> (selected: bool)
        ensures
            selected == string_views(old(self).files@).contains(path@),
            selected ==> *final(self) == (GitizenApp {
                selected_file: Some(path),
                ..*old(self)
            }),
            !selected ==> *final(self) == *old(self),
            selections_valid(*old(self)) ==> selections_valid(*final(self)),
    {
        if contains_string(&self.files, path.as_str()) {
            self.selected_file = Some(path);
            true
        } else {
            false
        }
    }

    /// Selects a changed path for the diff (its diff is to be loaded next).
    /// A path that is not among the changes leaves the window as it was; the
    /// result tells whether the path was selected.
    pub fn select_diff_path(&mut self, path: String) -> (selected: bool)
        ensures
            selected == change_paths(old(self).changes@).contains(path@),
            selected ==> *final(self) == (GitizenApp {
                selected_diff_path: Some(path),
                ..*old(self)
            }),
            !selected ==> *final(self) == *old(self),
            selections_valid(*old(self)) ==> selections_valid(*final(self)),
    {
        if contains_change_path(&self.changes, path.as_str()) {
            self.selected_diff_path = Some(path);
            true
        } else {
            false
        }
    }

    /// Selects a listed branch of a scope. A name that the scope does not
    /// list leaves the window as it was; the result tells whether the branch
    /// was selected.
    pub fn select_branch(&mut self, scope: BranchScope, name: String) -> (selected: bool)
        ensures
            scope == BranchScope::Local ==> selected == string_views(
                old(self).local_branches@,
            ).contains(name@),
            scope == BranchScope::Remote ==> selected == string_views(
                old(self).remote_branches@,
            ).contains(name@),
            selected && scope == BranchScope::Local ==> *final(self) == (GitizenApp {
                selected_local_branch: Some(name),
                ..*old(self)
            }),
            selected && scope == BranchScope::Remote ==> *final(self) == (GitizenApp {
                selected_remote_branch: Some(name),
                ..*old(self)
            }),
            !selected ==> *final(self) == *old(self),
            selections_valid(*old(self)) ==> selections_valid(*final(self)),
    {
        match scope {
            BranchScope::Local => {
                if contains_string(&self.local_branches, name.as_str()) {
                    self.selected_local_branch = Some(name);
                    true
                } else {
                    false
                }
            },
            BranchScope::Remote => {
                if contains_string(&self.remote_branches, name.as_str()) {
                    self.selected_remote_branch = Some(name);
                    true
                } else {
                    false
                }
            },
        }
    }

    /// The heading of the diff view.
    pub fn diff_heading(&self) -> (res: String)
        ensures
            res@ == match self.selected_diff_path {
                Some(p) => "Diff: "@ + p@,
                None => "Repository Diff"@,
            },
    {
        match &self.selected_diff_path {
            Some(p) => concat2("Diff: ", p.as_str()),
            None => owned("Repository Diff"),
        }
    }

    /// The label above the file editor.
    pub fn file_editor_label(&self) -> (res: String)
        ensures
            res@ == match self.selected_file {
                Some(p) => p@,
                None => "No file selected"@,
            },
    {
        match &self.selected_file {
            Some(p) => p.clone(),
            None => owned("No file selected"),
        }
    }

    /// The branch details of the branch view's scope.
    pub fn branch_details_text(&self) -> (res: String)
        ensures
            res@ == match self.branch_panel_state.scope {
                BranchScope::Local => match self.selected_local_branch {
                    Some(b) => "Scope: Local\nSelected: "@ + b@,
                    None => "Scope: Local\nNo branch selected"@,
                },
                BranchScope::Remote => match self.selected_remote_branch {
                    Some(b) => "Scope: Remote\nSelected: "@ + b@,
                    None => "Scope: Remote\nNo branch selected"@,
                },
            },
    {
        match self.branch_panel_state.scope {
            BranchScope::Local => match &self.selected_local_branch {
                Some(b) => concat2("Scope: Local\nSelected: ", b.as_str()),
                None => owned("Scope: Local\nNo branch selected"),
            },
            BranchScope::Remote => match &self.selected_remote_branch {
                Some(b) => concat2("Scope: Remote\nSelected: ", b.as_str()),
                None => owned("Scope: Remote\nNo branch selected"),
            },
        }
    }
}

/// The first file, in list order, inside a directory.
pub open spec fn first_file_in(files: Seq<String>, dir_path: Seq<char>, k: int) -> bool {
    &&& 0 <= k < files.len()
    &&& starts_with_seq(files[k]@, dir_path + seq!['/'])
    &&& forall|j: int| 0 <= j < k ==> !starts_with_seq(#[trigger] files[j]@, dir_path + seq!['/'])
}

/// The file that "Open First File" opens for a directory: the first listed
/// file whose path starts with the directory's path and `/`.
pub fn first_file_in_dir(files: &Vec<String>, dir_path: &str) -> (res: Option<String>)
    ensures
        match res {
            Some(f) => exists|k: int| first_file_in(files@, dir_path@, k) && #[trigger] files@[k] == f,
            None => forall|k: int|
                0 <= k < files.len() ==> !starts_with_seq(#[trigger] files@[k]@, dir_path@ + seq!['/']),
        },
{
    let prefix = concat2(dir_path, "/");
    proof {
        reveal_strlit("/");
    }
    let pre = chars_of(prefix.as_str());
    let mut i: usize = 0;
    while i < files.len()
        invariant
            i <= files.len(),
            pre@ == dir_path@ + seq!['/'],
            forall|j: int| 0 <= j < i ==> !starts_with_seq(#[trigger] files@[j]@, dir_path@ + seq!['/']),
        decreases files.len() - i,
    {
        let f = chars_of(files[i].as_str());
        if starts_with_chars(&f, &pre) {
            assert(first_file_in(files@, dir_path@, i as int));
            return Some(files[i].clone());
        }
        i = i + 1;
    }
    None
}

} // verus!
