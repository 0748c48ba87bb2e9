//! The branch side panel: its state and which branches it lists.
use vstd::prelude::*;

use crate::text::str_equal;

verus! {

/// Local branches or remote-tracking branches.
#[derive(Debug, Clone, Copy, PartialEq, Eq)]
pub enum BranchScope {
    Local,
    Remote,
}

/// What the branch panel asks for.
#[derive(Debug, Clone, PartialEq, Eq)]
pub enum BranchAction {
    SelectBranch { scope: BranchScope, name: String },
}

/// Which branches the panel lists and whether it groups them by prefix.
#[derive(Debug, Clone, Copy, PartialEq, Eq)]
pub struct BranchPanelState {
    pub scope: BranchScope,
    pub grouped: bool,
}

impl Default for BranchPanelState {
    fn default() -> (res: Self)
        ensures
            res.scope == BranchScope::Local,
            !res.grouped,
    {
        BranchPanelState { scope: BranchScope::Local, grouped: false }
    }
}

/// Whether `name` is the selected one.
pub fn is_selected(selected: Option<&str>, name: &str) -> (res: bool)
    ensures
        res == (selected matches Some(s) && s@ == name@),
{
    match selected {
        Some(s) => str_equal(s, name),
        None => false,
    }
}

/// The branches that the panel lists for a scope.
pub fn branches_for_scope<'a>(
    scope: BranchScope,
    local_branches: &'a Vec<String>,
    remote_branches: &'a Vec<String>,
) -> (res: &'a Vec<String>)
    ensures
        scope == BranchScope::Local ==> res == local_branches,
        scope == BranchScope::Remote ==> res == remote_branches,
{
    match scope {
        BranchScope::Local => local_branches,
        BranchScope::Remote => remote_branches,
    }
}

/// The selected branch of a scope.
pub fn selected_for_scope<'a>(
    scope: BranchScope,
    selected_local: Option<&'a str>,
    selected_remote: Option<&'a str>,
) -> (res: Option<&'a str>)
    ensures
        scope == BranchScope::Local ==> res == selected_local,
        scope == BranchScope::Remote ==> res == selected_remote,
{
    match scope {
        BranchScope::Local => selected_local,
        BranchScope::Remote => selected_remote,
    }
}

} // verus!
