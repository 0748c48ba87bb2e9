//! The repository actions of the toolbar.
use vstd::prelude::*;

verus! {

/// What a toolbar button asks the repository to do.
#[derive(Debug, Clone, PartialEq, Eq)]
pub enum RepoAction {
    Fetch,
    PullMerge,
    PullRebase,
    Commit,
    Push,
}

} // verus!
