//! Gitizen's library: the logic of a git workspace browser. It turns what a
//! repository reports (status entries, directory listings, diff lines,
//! branch names) into the lists, trees, texts and selections the window
//! shows, and decides what each user event does.
pub mod branch_selector;
pub mod branches_view;
pub mod code_view;
pub mod diff_code_view;
pub mod diff_view;
pub mod git_status;
pub mod gitizen_app;
pub mod ordering;
pub mod paths;
pub mod project_selector;
pub mod repo_actions;
pub mod text;
pub mod tree_view;
