//! The branch selector: its state, the search over branch names, and what
//! each user event does to the state and asks of the repository.
use vstd::prelude::*;

use crate::git_status::{contains_string, string_views};
use crate::text::{
    ascii_lower_chars, ascii_lower_seq, chars_of, contains_chars, contains_seq, owned,
    str_equal, string_from_chars, trim_chars, trim_seq,
};

verus! {

broadcast use vstd::string::group_string_axioms;

/// What the branch selector shows and remembers between frames.
#[derive(Debug, Clone)]
pub struct BranchSelectorState {
    pub search_query: String,
    pub show_new_branch_dialog: bool,
    pub new_branch_name: String,
    pub show_checkout_dialog: bool,
    pub checkout_reference: String,
    pub message: Option<String>,
    pub focused_local_branch: Option<String>,
    pub focused_remote_branch: Option<String>,
}

impl Default for BranchSelectorState {
    fn default() -> (res: Self)
        ensures
            res.search_query@.len() == 0,
            !res.show_new_branch_dialog,
            res.new_branch_name@.len() == 0,
            !res.show_checkout_dialog,
            res.checkout_reference@.len() == 0,
            res.message is None,
            res.focused_local_branch is None,
            res.focused_remote_branch is None,
    {
        BranchSelectorState {
            search_query: String::new(),
            show_new_branch_dialog: false,
            new_branch_name: String::new(),
            show_checkout_dialog: false,
            checkout_reference: String::new(),
            message: None,
            focused_local_branch: None,
            focused_remote_branch: None,
        }
    }
}

/// What the branch selector asks the repository to do.
#[derive(Debug, Clone, PartialEq, Eq)]
pub enum BranchSelectorAction {
    CreateBranch { name: String },
    CheckoutReference { reference: String },
    CheckoutLocalBranch { name: String },
    CheckoutRemoteBranch { name: String },
}

/// The query matches the text when it is empty or occurs in it, ignoring
/// ASCII case.
pub open spec fn fuzzy_matches(text: Seq<char>, query: Seq<char>) -> bool {
    query.len() == 0 || contains_seq(ascii_lower_seq(text), ascii_lower_seq(query))
}

proof fn lemma_lower_idempotent(s: Seq<char>)
    ensures
        ascii_lower_seq(ascii_lower_seq(s)) == ascii_lower_seq(s),
{
    assert(ascii_lower_seq(ascii_lower_seq(s)) =~= ascii_lower_seq(s));
}

/// Matching ignores ASCII case: folding text and query to lower case first
/// changes nothing.
pub proof fn lemma_fuzzy_match_ignores_case(text: Seq<char>, query: Seq<char>)
    ensures
        fuzzy_matches(ascii_lower_seq(text), ascii_lower_seq(query)) == fuzzy_matches(text, query),
{
    lemma_lower_idempotent(text);
    lemma_lower_idempotent(query);
}

/// An empty query matches every text.
pub proof fn lemma_empty_query_matches_all(text: Seq<char>)
    ensures
        fuzzy_matches(text, Seq::empty()),
{
}

/// `query` occurs in `text` at position `k`, character by character after
/// folding ASCII upper case to lower case.
pub open spec fn occurs_ignoring_case(text: Seq<char>, query: Seq<char>, k: int) -> bool {
    &&& 0 <= k
    &&& k + query.len() <= text.len()
    &&& forall|j: int|
        0 <= j < query.len() ==> crate::text::ascii_lower(#[trigger] text[k + j])
            == crate::text::ascii_lower(query[j])
}

/// A query matches every text in which it occurs, ignoring ASCII case, at
/// any position (the start included).
pub proof fn lemma_fuzzy_match_finds_occurrence(text: Seq<char>, query: Seq<char>, k: int)
    requires
        occurs_ignoring_case(text, query, k),
    ensures
        fuzzy_matches(text, query),
{
    if query.len() > 0 {
        let lt = ascii_lower_seq(text);
        let lq = ascii_lower_seq(query);
        assert forall|j: int| 0 <= j < lq.len() implies lt.subrange(k, k + lq.len())[j] == lq[j] by {
            assert(lt[k + j] == crate::text::ascii_lower(text[k + j]));
        }
        assert(lt.subrange(k, k + lq.len()) =~= lq);
        assert(contains_seq(lt, lq));
    }
}

/// A non-empty query matches a text only where it occurs in it, ignoring
/// ASCII case.
pub proof fn lemma_fuzzy_match_needs_occurrence(text: Seq<char>, query: Seq<char>)
    requires
        fuzzy_matches(text, query),
        query.len() > 0,
    ensures
        exists|k: int| #[trigger] occurs_ignoring_case(text, query, k),
{
    let lt = ascii_lower_seq(text);
    let lq = ascii_lower_seq(query);
    let k = choose|k: int| 0 <= k && k + lq.len() <= lt.len() && #[trigger] lt.subrange(k, k + lq.len()) == lq;
    assert forall|j: int| 0 <= j < query.len() implies crate::text::ascii_lower(#[trigger] text[k + j])
        == crate::text::ascii_lower(query[j]) by {
        assert(lt.subrange(k, k + lq.len())[j] == lq[j]);
    }
    assert(occurs_ignoring_case(text, query, k));
}

/// Every text matches itself and each of its prefixes, in any ASCII case.
pub proof fn lemma_fuzzy_match_self_and_prefixes(text: Seq<char>, n: int)
    requires
        0 <= n <= text.len(),
    ensures
        fuzzy_matches(text, text),
        fuzzy_matches(text, text.take(n)),
        fuzzy_matches(text, ascii_lower_seq(text.take(n))),
{
    lemma_fuzzy_match_finds_occurrence(text, text, 0);
    lemma_fuzzy_match_finds_occurrence(text, text.take(n), 0);
    assert forall|j: int| 0 <= j < n implies crate::text::ascii_lower(#[trigger] text[0 + j])
        == crate::text::ascii_lower(ascii_lower_seq(text.take(n))[j]) by {
        let c = text[j];
        assert(ascii_lower_seq(text.take(n))[j] == crate::text::ascii_lower(c));
        assert(crate::text::ascii_lower(crate::text::ascii_lower(c)) == crate::text::ascii_lower(c));
    }
    lemma_fuzzy_match_finds_occurrence(text, ascii_lower_seq(text.take(n)), 0);
}

/// Whether the query matches the text.
pub fn fuzzy_match(text: &str, query: &str) -> (res: bool)
    ensures
        res == fuzzy_matches(text@, query@),
{
    let q = chars_of(query);
    if q.len() == 0 {
        return true;
    }
    let t = ascii_lower_chars(&chars_of(text));
    let lq = ascii_lower_chars(&q);
    contains_chars(&t, &lq)
}

/// The label of the selector: the selected local branch, else the first
/// local branch, else `No local branch`.
pub open spec fn current_local_label(selected: Option<Seq<char>>, local_branches: Seq<String>) -> Seq<char> {
    match selected {
        Some(s) => s,
        None => if local_branches.len() > 0 {
            local_branches[0]@
        } else {
            "No local branch"@
        },
    }
}

/// The label shown on the closed selector.
pub fn current_local_text(selected_local_branch: Option<&str>, local_branches: &Vec<String>) -> (res:
    String)
    ensures
        res@ == current_local_label(
            match selected_local_branch {
                Some(s) => Some(s@),
                None => None,
            },
            local_branches@,
        ),
{
    match selected_local_branch {
        Some(s) => owned(s),
        None => if local_branches.len() > 0 {
            local_branches[0].clone()
        } else {
            owned("No local branch")
        },
    }
}

/// The branches that the (trimmed) search query matches, in list order.
pub open spec fn filtered_branches(branches: Seq<String>, query: Seq<char>) -> Seq<String> {
    branches.filter(|b: String| fuzzy_matches(b@, trim_seq(query)))
}

/// A branch in which the trimmed search query occurs, ignoring ASCII case,
/// at any position, is shown; and every shown branch is one of the
/// branches and matches the query.
pub proof fn lemma_filter_shows_occurrences(branches: Seq<String>, query: Seq<char>, i: int, k: int)
    requires
        0 <= i < branches.len(),
        occurs_ignoring_case(branches[i]@, trim_seq(query), k),
    ensures
        filtered_branches(branches, query).contains(branches[i]),
        forall|b: String|
            #[trigger] filtered_branches(branches, query).contains(b) ==> branches.contains(b)
                && fuzzy_matches(b@, trim_seq(query)),
{
    lemma_fuzzy_match_finds_occurrence(branches[i]@, trim_seq(query), k);
    let pred = |b: String| fuzzy_matches(b@, trim_seq(query));
    branches.lemma_filter_contains(pred, i);
    assert forall|b: String| #[trigger] filtered_branches(branches, query).contains(b) implies branches.contains(b)
        && fuzzy_matches(b@, trim_seq(query)) by {
        branches.lemma_filter_contains_rev(pred, b);
    }
}

/// The branches shown for a search query.
pub fn filter_branches(branches: &Vec<String>, search_query: &str) -> (res: Vec<String>)
    ensures
        res@ == filtered_branches(branches@, search_query@),
{
    let q = string_from_chars(&trim_chars(search_query));
    let ghost pred = |b: String| fuzzy_matches(b@, trim_seq(search_query@));
    let mut out: Vec<String> = Vec::new();
    let mut i: usize = 0;
    while i < branches.len()
        invariant
            i <= branches.len(),
            q@ == trim_seq(search_query@),
            pred == |b: String| fuzzy_matches(b@, trim_seq(search_query@)),
            out@ == branches@.take(i as int).filter(pred),
        decreases branches.len() - i,
    {
        let keep = fuzzy_match(branches[i].as_str(), q.as_str());
        if keep {
            out.push(branches[i].clone());
        }
        proof {
            reveal_with_fuel(Seq::filter, 1);
            assert(branches@.take(i + 1).drop_last() =~= branches@.take(i as int));
        }
        i = i + 1;
    }
    assert(branches@.take(branches.len() as int) =~= branches@);
    out
}

/// A local branch is highlighted when it is the focused one; with no focus,
/// when it is the selected one.
pub open spec fn local_highlighted(
    focused_local: Option<String>,
    selected_local: Option<Seq<char>>,
    branch: Seq<char>,
) -> bool {
    match focused_local {
        Some(f) => f@ == branch,
        None => match selected_local {
            Some(s) => s == branch,
            None => false,
        },
    }
}

/// Whether a local branch is highlighted in the list.
pub fn is_local_highlighted(
    state: &BranchSelectorState,
    selected_local_branch: Option<&str>,
    branch: &str,
) -> (res: bool)
    ensures
        res == local_highlighted(
            state.focused_local_branch,
            match selected_local_branch {
                Some(s) => Some(s@),
                None => None,
            },
            branch@,
        ),
{
    match &state.focused_local_branch {
        Some(f) => str_equal(f.as_str(), branch),
        None => match selected_local_branch {
            Some(s) => str_equal(s, branch),
            None => false,
        },
    }
}

/// Whether a remote branch is highlighted: when it is the focused one.
pub fn is_remote_highlighted(state: &BranchSelectorState, branch: &str) -> (res: bool)
    ensures
        res == (state.focused_remote_branch matches Some(f) && f@ == branch@),
{
    match &state.focused_remote_branch {
        Some(f) => str_equal(f.as_str(), branch),
        None => false,
    }
}

/// What the user did in the branch selector.
#[derive(Debug, Clone, PartialEq, Eq)]
pub enum BranchSelectorEvent {
    LocalClicked(String),
    LocalDoubleClicked(String),
    RemoteClicked(String),
    RemoteDoubleClicked(String),
    NewBranchRequested,
    CheckoutRequested,
    NewBranchConfirmed,
    NewBranchCancelled,
    NewBranchWindowClosed,
    CheckoutConfirmed,
    CheckoutCancelled,
    CheckoutWindowClosed,
}

/// At most one branch, local or remote, has the focus.
pub open spec fn focus_is_exclusive(s: BranchSelectorState) -> bool {
    !(s.focused_local_branch is Some && s.focused_remote_branch is Some)
}

/// The search text and the message stay as they were.
pub open spec fn keeps_search_and_message(a: BranchSelectorState, b: BranchSelectorState) -> bool {
    a.search_query == b.search_query && a.message == b.message
}

/// The filtered list for the search query shows a row named `name`.
pub open spec fn shows_row(list: Seq<String>, query: Seq<char>, name: Seq<char>) -> bool {
    string_views(filtered_branches(list, query)).contains(name)
}

/// What one event does: the state before (`a`) and after (`b`), and what
/// the repository is asked to do (`res`), with the local and remote branch
/// lists shown. Clicks on a row that the filtered lists show move the focus,
/// double clicks on one ask for a checkout (clicks on any other name do
/// nothing), the dialog buttons open, confirm (with the
/// trimmed text, when it is not blank), cancel (clearing the text) or close
/// the dialogs.
pub open spec fn event_outcome(
    a: BranchSelectorState,
    b: BranchSelectorState,
    event: BranchSelectorEvent,
    res: Option<BranchSelectorAction>,
    local: Seq<String>,
    remote: Seq<String>,
) -> bool {
    match event {
        BranchSelectorEvent::LocalClicked(name) => if shows_row(local, a.search_query@, name@) {
                &&& b.focused_local_branch == Some(name)
                &&& b.focused_remote_branch is None
                &&& b.new_branch_name == a.new_branch_name
                &&& b.checkout_reference == a.checkout_reference
                &&& b.show_new_branch_dialog == a.show_new_branch_dialog
                &&& b.show_checkout_dialog == a.show_checkout_dialog
                &&& res is None
        } else {
            &&& b == a
            &&& res is None
        },
        BranchSelectorEvent::RemoteClicked(name) => if shows_row(remote, a.search_query@, name@) {
                &&& b.focused_remote_branch == Some(name)
                &&& b.focused_local_branch is None
                &&& b.new_branch_name == a.new_branch_name
                &&& b.checkout_reference == a.checkout_reference
                &&& b.show_new_branch_dialog == a.show_new_branch_dialog
                &&& b.show_checkout_dialog == a.show_checkout_dialog
                &&& res is None
        } else {
            &&& b == a
            &&& res is None
        },
        BranchSelectorEvent::LocalDoubleClicked(name) => if shows_row(local, a.search_query@, name@) {
                &&& b == a
                &&& res == Some(BranchSelectorAction::CheckoutLocalBranch { name })
        } else {
            &&& b == a
            &&& res is None
        },
        BranchSelectorEvent::RemoteDoubleClicked(name) => if shows_row(remote, a.search_query@, name@) {
                &&& b == a
                &&& res == Some(BranchSelectorAction::CheckoutRemoteBranch { name })
        } else {
            &&& b == a
            &&& res is None
        },
        BranchSelectorEvent::NewBranchRequested => {
            &&& b.show_new_branch_dialog
            &&& b.show_checkout_dialog == a.show_checkout_dialog
            &&& b.new_branch_name == a.new_branch_name
            &&& b.checkout_reference == a.checkout_reference
            &&& b.focused_local_branch == a.focused_local_branch
            &&& b.focused_remote_branch == a.focused_remote_branch
            &&& res is None
        },
        BranchSelectorEvent::CheckoutRequested => {
            &&& b.show_checkout_dialog
            &&& b.show_new_branch_dialog == a.show_new_branch_dialog
            &&& b.new_branch_name == a.new_branch_name
            &&& b.checkout_reference == a.checkout_reference
            &&& b.focused_local_branch == a.focused_local_branch
            &&& b.focused_remote_branch == a.focused_remote_branch
            &&& res is None
        },
        BranchSelectorEvent::NewBranchConfirmed => {
            &&& b.show_checkout_dialog == a.show_checkout_dialog
            &&& b.checkout_reference == a.checkout_reference
            &&& b.focused_local_branch == a.focused_local_branch
            &&& b.focused_remote_branch == a.focused_remote_branch
            &&& if trim_seq(a.new_branch_name@).len() > 0 {
                &&& res matches Some(BranchSelectorAction::CreateBranch { name }) && name@
                    == trim_seq(a.new_branch_name@)
                &&& b.new_branch_name@.len() == 0
                &&& !b.show_new_branch_dialog
            } else {
                &&& res is None
                &&& b.new_branch_name == a.new_branch_name
                &&& b.show_new_branch_dialog == a.show_new_branch_dialog
            }
        },
        BranchSelectorEvent::NewBranchCancelled => {
            &&& b.new_branch_name@.len() == 0
            &&& !b.show_new_branch_dialog
            &&& b.show_checkout_dialog == a.show_checkout_dialog
            &&& b.checkout_reference == a.checkout_reference
            &&& b.focused_local_branch == a.focused_local_branch
            &&& b.focused_remote_branch == a.focused_remote_branch
            &&& res is None
        },
        BranchSelectorEvent::NewBranchWindowClosed => {
            &&& !b.show_new_branch_dialog
            &&& b.new_branch_name == a.new_branch_name
            &&& b.show_checkout_dialog == a.show_checkout_dialog
            &&& b.checkout_reference == a.checkout_reference
            &&& b.focused_local_branch == a.focused_local_branch
            &&& b.focused_remote_branch == a.focused_remote_branch
            &&& res is None
        },
        BranchSelectorEvent::CheckoutConfirmed => {
            &&& b.show_new_branch_dialog == a.show_new_branch_dialog
            &&& b.new_branch_name == a.new_branch_name
            &&& b.focused_local_branch == a.focused_local_branch
            &&& b.focused_remote_branch == a.focused_remote_branch
            &&& if trim_seq(a.checkout_reference@).len() > 0 {
                &&& res matches Some(BranchSelectorAction::CheckoutReference { reference })
                    && reference@ == trim_seq(a.checkout_reference@)
                &&& b.checkout_reference@.len() == 0
                &&& !b.show_checkout_dialog
            } else {
                &&& res is None
                &&& b.checkout_reference == a.checkout_reference
                &&& b.show_checkout_dialog == a.show_checkout_dialog
            }
        },
        BranchSelectorEvent::CheckoutCancelled => {
            &&& b.checkout_reference@.len() == 0
            &&& !b.show_checkout_dialog
            &&& b.show_new_branch_dialog == a.show_new_branch_dialog
            &&& b.new_branch_name == a.new_branch_name
            &&& b.focused_local_branch == a.focused_local_branch
            &&& b.focused_remote_branch == a.focused_remote_branch
            &&& res is None
        },
        BranchSelectorEvent::CheckoutWindowClosed => {
            &&& !b.show_checkout_dialog
            &&& b.checkout_reference == a.checkout_reference
            &&& b.show_new_branch_dialog == a.show_new_branch_dialog
            &&& b.new_branch_name == a.new_branch_name
            &&& b.focused_local_branch == a.focused_local_branch
            &&& b.focused_remote_branch == a.focused_remote_branch
            &&& res is None
        },
    }
}

/// The focus names listed branches: a focused local branch is one of the
/// local branches, a focused remote branch one of the remote branches.
pub open spec fn focus_listed(s: BranchSelectorState, local: Seq<String>, remote: Seq<String>) -> bool {
    &&& (s.focused_local_branch matches Some(f) ==> string_views(local).contains(f@))
    &&& (s.focused_remote_branch matches Some(f) ==> string_views(remote).contains(f@))
}

proof fn lemma_shown_row_listed(list: Seq<String>, query: Seq<char>, name: Seq<char>)
    requires
        shows_row(list, query, name),
    ensures
        string_views(list).contains(name),
{
    let f = filtered_branches(list, query);
    let k = choose|k: int| 0 <= k < string_views(f).len() && string_views(f)[k] == name;
    assert(f.contains(f[k]));
    let pred = |x: String| fuzzy_matches(x@, trim_seq(query));
    list.lemma_filter_contains_rev(pred, f[k]);
    let j = choose|j: int| 0 <= j < list.len() && list[j] == f[k];
    assert(string_views(list)[j] == name);
}

/// The focus stays on listed branches and on one branch at most: after any
/// event, a focus field that the event changed is empty or names a listed
/// branch of its scope, a focus that named listed branches still does, and
/// at most one branch is focused if at most one was before.
pub proof fn lemma_focus_stays_listed(
    a: BranchSelectorState,
    b: BranchSelectorState,
    event: BranchSelectorEvent,
    res: Option<BranchSelectorAction>,
    local: Seq<String>,
    remote: Seq<String>,
)
    requires
        event_outcome(a, b, event, res, local, remote),
    ensures
        b.focused_local_branch != a.focused_local_branch ==> (b.focused_local_branch matches Some(
            f,
        ) ==> string_views(local).contains(f@)),
        b.focused_remote_branch != a.focused_remote_branch ==> (b.focused_remote_branch matches Some(
            f,
        ) ==> string_views(remote).contains(f@)),
        focus_listed(a, local, remote) ==> focus_listed(b, local, remote),
        !(a.focused_local_branch is Some && a.focused_remote_branch is Some) ==> !(
        b.focused_local_branch is Some && b.focused_remote_branch is Some),
{
    lemma_focus_stays_listed_on_click(a, event, local, remote);
}

proof fn lemma_focus_stays_listed_on_click(
    a: BranchSelectorState,
    event: BranchSelectorEvent,
    local: Seq<String>,
    remote: Seq<String>,
)
    ensures
        event matches BranchSelectorEvent::LocalClicked(name) ==> (shows_row(
            local,
            a.search_query@,
            name@,
        ) ==> string_views(local).contains(name@)),
        event matches BranchSelectorEvent::RemoteClicked(name) ==> (shows_row(
            remote,
            a.search_query@,
            name@,
        ) ==> string_views(remote).contains(name@)),
{
    match event {
        BranchSelectorEvent::LocalClicked(name) => {
            if shows_row(local, a.search_query@, name@) {
                lemma_shown_row_listed(local, a.search_query@, name@);
            }
        },
        BranchSelectorEvent::RemoteClicked(name) => {
            if shows_row(remote, a.search_query@, name@) {
                lemma_shown_row_listed(remote, a.search_query@, name@);
            }
        },
        _ => {},
    }
}

/// Applies one event to the state, and returns what the repository is asked
/// to do, if anything. A click or double click on a name that the filtered
/// lists do not show does nothing.
pub fn handle_event(
    state: &mut BranchSelectorState,
    event: BranchSelectorEvent,
    local_branches: &Vec<String>,
    remote_branches: &Vec<String>,
) -> (res: Option<BranchSelectorAction>)
    ensures
        keeps_search_and_message(*old(state), *final(state)),
        focus_is_exclusive(*old(state)) ==> focus_is_exclusive(*final(state)),
        focus_listed(*old(state), local_branches@, remote_branches@) ==> focus_listed(
            *final(state),
            local_branches@,
            remote_branches@,
        ),
        event_outcome(*old(state), *final(state), event, res, local_branches@, remote_branches@),
{
    let listed = match &event {
        BranchSelectorEvent::LocalClicked(name) | BranchSelectorEvent::LocalDoubleClicked(name) => {
            let rows = filter_branches(local_branches, state.search_query.as_str());
            contains_string(&rows, name.as_str())
        },
        BranchSelectorEvent::RemoteClicked(name) | BranchSelectorEvent::RemoteDoubleClicked(name) => {
            let rows = filter_branches(remote_branches, state.search_query.as_str());
            contains_string(&rows, name.as_str())
        },
        _ => true,
    };
    if !listed {
        return None;
    }
    proof {
        lemma_focus_stays_listed_on_click(*old(state), event, local_branches@, remote_branches@);
    }
    match event {
        BranchSelectorEvent::LocalClicked(name) => {
            state.focused_local_branch = Some(name);
            state.focused_remote_branch = None;
            None
        },
        BranchSelectorEvent::RemoteClicked(name) => {
            state.focused_remote_branch = Some(name);
            state.focused_local_branch = None;
            None
        },
        BranchSelectorEvent::LocalDoubleClicked(name) => {
            Some(BranchSelectorAction::CheckoutLocalBranch { name })
        },
        BranchSelectorEvent::RemoteDoubleClicked(name) => {
            Some(BranchSelectorAction::CheckoutRemoteBranch { name })
        },
        BranchSelectorEvent::NewBranchRequested => {
            state.show_new_branch_dialog = true;
            None
        },
        BranchSelectorEvent::CheckoutRequested => {
            state.show_checkout_dialog = true;
            None
        },
        BranchSelectorEvent::NewBranchConfirmed => {
            let name = trim_chars(state.new_branch_name.as_str());
            if name.len() > 0 {
                let branch_name = string_from_chars(&name);
                state.new_branch_name = String::new();
                state.show_new_branch_dialog = false;
                Some(BranchSelectorAction::CreateBranch { name: branch_name })
            } else {
                None
            }
        },
        BranchSelectorEvent::NewBranchCancelled => {
            state.new_branch_name = String::new();
            state.show_new_branch_dialog = false;
            None
        },
        BranchSelectorEvent::NewBranchWindowClosed => {
            state.show_new_branch_dialog = false;
            None
        },
        BranchSelectorEvent::CheckoutConfirmed => {
            let reference = trim_chars(state.checkout_reference.as_str());
            if reference.len() > 0 {
                let reference = string_from_chars(&reference);
                state.checkout_reference = String::new();
                state.show_checkout_dialog = false;
                Some(BranchSelectorAction::CheckoutReference { reference })
            } else {
                None
            }
        },
        BranchSelectorEvent::CheckoutCancelled => {
            state.checkout_reference = String::new();
            state.show_checkout_dialog = false;
            None
        },
        BranchSelectorEvent::CheckoutWindowClosed => {
            state.show_checkout_dialog = false;
            None
        },
    }
}

} // verus!
