use gitizen::branch_selector::{
    current_local_text, filter_branches, fuzzy_match, handle_event, is_local_highlighted,
    is_remote_highlighted, BranchSelectorAction, BranchSelectorEvent, BranchSelectorState,
};
use gitizen::branches_view::{branches_for_scope, is_selected, selected_for_scope, BranchPanelState, BranchScope};
use gitizen::diff_code_view::{cell_background, cell_source, DiffRenderMode, SplitCellKind, SplitDiffModel};
use gitizen::diff_view::{
    change_label, list_row_order, sort_key_label, sort_order_label, toggle_sort_order, DiffDisplayMode,
    DiffPanelState, DiffSortKey, SortOrder,
};
use gitizen::git_status::{ChangeItem, GitStatusError};
use gitizen::gitizen_app::{first_file_in_dir, GitizenApp, LeftView};

fn strings(v: &[&str]) -> Vec<String> {
    v.iter().map(|s| s.to_string()).collect()
}

fn local_rows() -> Vec<String> {
    strings(&["main", "dev"])
}

fn remote_rows() -> Vec<String> {
    strings(&["origin/dev", "origin/x"])
}

fn item(code: &str, path: &str) -> ChangeItem {
    ChangeItem { code: code.to_string(), path: path.to_string() }
}

#[test]
fn fuzzy_matching() {
    assert!(fuzzy_match("feature/Login", "login"));
    assert!(fuzzy_match("main", ""));
    assert!(fuzzy_match("MAIN", "aI"));
    assert!(!fuzzy_match("main", "mian"));
    assert_eq!(fuzzy_match("ÄB", "äb"), false);
}

#[test]
fn branch_filter_trims_query() {
    let b = strings(&["main", "feature/login", "Fix-Login", "release"]);
    assert_eq!(filter_branches(&b, "  login "), strings(&["feature/login", "Fix-Login"]));
    assert_eq!(filter_branches(&b, "   "), b);
    assert_eq!(filter_branches(&b, "zzz"), Vec::<String>::new());
}

#[test]
fn selector_label() {
    let locals = strings(&["dev", "main"]);
    assert_eq!(current_local_text(Some("main"), &locals), "main");
    assert_eq!(current_local_text(None, &locals), "dev");
    assert_eq!(current_local_text(None, &vec![]), "No local branch");
}

#[test]
fn selector_focus_and_highlight() {
    let mut s = BranchSelectorState::default();
    assert!(is_local_highlighted(&s, Some("main"), "main"));
    assert!(!is_local_highlighted(&s, None, "main"));
    assert_eq!(handle_event(&mut s, BranchSelectorEvent::LocalClicked("dev".to_string()), &local_rows(), &remote_rows()), None);
    assert!(is_local_highlighted(&s, Some("main"), "dev"));
    assert!(!is_local_highlighted(&s, Some("main"), "main"));
    assert_eq!(handle_event(&mut s, BranchSelectorEvent::RemoteClicked("origin/dev".to_string()), &local_rows(), &remote_rows()), None);
    assert_eq!(s.focused_local_branch, None);
    assert!(is_remote_highlighted(&s, "origin/dev"));
    assert!(!(s.focused_local_branch.is_some() && s.focused_remote_branch.is_some()));
    assert_eq!(
        handle_event(&mut s, BranchSelectorEvent::LocalDoubleClicked("dev".to_string()), &local_rows(), &remote_rows()),
        Some(BranchSelectorAction::CheckoutLocalBranch { name: "dev".to_string() })
    );
    assert_eq!(
        handle_event(&mut s, BranchSelectorEvent::RemoteDoubleClicked("origin/x".to_string()), &local_rows(), &remote_rows()),
        Some(BranchSelectorAction::CheckoutRemoteBranch { name: "origin/x".to_string() })
    );
}

#[test]
fn selector_new_branch_dialog() {
    let mut s = BranchSelectorState::default();
    handle_event(&mut s, BranchSelectorEvent::NewBranchRequested, &local_rows(), &remote_rows());
    assert!(s.show_new_branch_dialog);
    s.new_branch_name = "   ".to_string();
    assert_eq!(handle_event(&mut s, BranchSelectorEvent::NewBranchConfirmed, &local_rows(), &remote_rows()), None);
    assert!(s.show_new_branch_dialog);
    s.new_branch_name = "  topic ".to_string();
    assert_eq!(
        handle_event(&mut s, BranchSelectorEvent::NewBranchConfirmed, &local_rows(), &remote_rows()),
        Some(BranchSelectorAction::CreateBranch { name: "topic".to_string() })
    );
    assert!(!s.show_new_branch_dialog);
    assert_eq!(s.new_branch_name, "");
    handle_event(&mut s, BranchSelectorEvent::NewBranchRequested, &local_rows(), &remote_rows());
    s.new_branch_name = "abc".to_string();
    handle_event(&mut s, BranchSelectorEvent::NewBranchWindowClosed, &local_rows(), &remote_rows());
    assert!(!s.show_new_branch_dialog);
    assert_eq!(s.new_branch_name, "abc");
    handle_event(&mut s, BranchSelectorEvent::NewBranchCancelled, &local_rows(), &remote_rows());
    assert_eq!(s.new_branch_name, "");
}

#[test]
fn selector_checkout_dialog() {
    let mut s = BranchSelectorState::default();
    handle_event(&mut s, BranchSelectorEvent::CheckoutRequested, &local_rows(), &remote_rows());
    assert!(s.show_checkout_dialog);
    s.checkout_reference = " v1.2.0\n".to_string();
    assert_eq!(
        handle_event(&mut s, BranchSelectorEvent::CheckoutConfirmed, &local_rows(), &remote_rows()),
        Some(BranchSelectorAction::CheckoutReference { reference: "v1.2.0".to_string() })
    );
    assert!(!s.show_checkout_dialog);
    assert_eq!(s.checkout_reference, "");
    handle_event(&mut s, BranchSelectorEvent::CheckoutRequested, &local_rows(), &remote_rows());
    assert_eq!(handle_event(&mut s, BranchSelectorEvent::CheckoutConfirmed, &local_rows(), &remote_rows()), None);
    assert!(s.show_checkout_dialog);
    s.checkout_reference = "abc".to_string();
    handle_event(&mut s, BranchSelectorEvent::CheckoutCancelled, &local_rows(), &remote_rows());
    assert!(!s.show_checkout_dialog);
    assert_eq!(s.checkout_reference, "");
    handle_event(&mut s, BranchSelectorEvent::CheckoutRequested, &local_rows(), &remote_rows());
    s.checkout_reference = "keep".to_string();
    handle_event(&mut s, BranchSelectorEvent::CheckoutWindowClosed, &local_rows(), &remote_rows());
    assert!(!s.show_checkout_dialog);
    assert_eq!(s.checkout_reference, "keep");
}

#[test]
fn branch_panel_helpers() {
    let p = BranchPanelState::default();
    assert_eq!(p.scope, BranchScope::Local);
    assert!(!p.grouped);
    let l = strings(&["main"]);
    let r = strings(&["origin/main"]);
    assert_eq!(branches_for_scope(BranchScope::Remote, &l, &r), &r);
    assert_eq!(branches_for_scope(BranchScope::Local, &l, &r), &l);
    assert_eq!(selected_for_scope(BranchScope::Remote, Some("a"), Some("b")), Some("b"));
    assert!(is_selected(Some("main"), "main"));
    assert!(!is_selected(Some("main"), "dev"));
    assert!(!is_selected(None, "dev"));
}

#[test]
fn diff_panel_defaults_and_labels() {
    let d = DiffPanelState::default();
    assert_eq!(d.mode, DiffDisplayMode::Tree);
    assert_eq!(d.sort_key, DiffSortKey::Path);
    assert_eq!(d.sort_order, SortOrder::Asc);
    assert_eq!(toggle_sort_order(SortOrder::Asc), SortOrder::Desc);
    assert_eq!(toggle_sort_order(toggle_sort_order(SortOrder::Desc)), SortOrder::Desc);
    assert_eq!(sort_order_label(SortOrder::Desc), "Desc");
    assert_eq!(sort_key_label(DiffSortKey::Status), "Status");
    assert_eq!(change_label("M ", "main.rs"), "M  main.rs");
    assert_eq!(DiffRenderMode::default(), DiffRenderMode::Unified);
}

#[test]
fn list_rows_sorted_by_key_and_order() {
    let changes = vec![item(" M", "b.rs"), item("A ", "a.rs"), item(" M", "a.rs"), item("??", "c.rs")];
    assert_eq!(list_row_order(&changes, DiffSortKey::Path, SortOrder::Asc), vec![2, 1, 0, 3]);
    assert_eq!(list_row_order(&changes, DiffSortKey::Path, SortOrder::Desc), vec![3, 0, 1, 2]);
    assert_eq!(list_row_order(&changes, DiffSortKey::Status, SortOrder::Asc), vec![2, 0, 3, 1]);
    let mut asc = list_row_order(&changes, DiffSortKey::Status, SortOrder::Asc);
    asc.reverse();
    assert_eq!(list_row_order(&changes, DiffSortKey::Status, SortOrder::Desc), asc);
}

#[test]
fn split_cells() {
    assert_eq!(cell_background(SplitCellKind::Added), Some((28, 58, 39)));
    assert_eq!(cell_background(SplitCellKind::Removed), Some((61, 31, 31)));
    assert_eq!(cell_background(SplitCellKind::Meta), Some((36, 39, 46)));
    assert_eq!(cell_background(SplitCellKind::Context), None);
    assert_eq!(cell_background(SplitCellKind::Blank), None);
    assert_eq!(cell_source(""), " ");
    assert_eq!(cell_source("x"), "x");
    assert!(SplitDiffModel::default().rows.is_empty());
}

fn ok_refresh(app: &mut GitizenApp, changes: Vec<ChangeItem>, files: Vec<String>, local: Vec<String>, remote: Vec<String>) -> bool {
    app.refresh(Ok(changes), Ok(files), Ok("DIFF".to_string()), Ok(local), Ok(remote))
}

#[test]
fn new_app_is_empty() {
    let app = GitizenApp::new("/ws".to_string());
    assert_eq!(app.workspace, "/ws");
    assert!(app.left_panel_open);
    assert_eq!(app.left_view, LeftView::Files);
    assert!(app.selected_file.is_none() && app.error.is_none());
    assert_eq!(app.left_panel_toggle_label(), "Hide Left Panel");
}

#[test]
fn refresh_keeps_only_listed_selections() {
    let mut app = GitizenApp::new("/ws".to_string());
    assert!(ok_refresh(&mut app, vec![item(" M", "a.rs")], strings(&["a.rs", "b.rs"]), strings(&["main"]), strings(&["origin/main"])));
    assert_eq!(app.selected_file, Some("a.rs".to_string()));
    assert_eq!(app.diff_output, "DIFF");
    assert!(app.select_file("b.rs".to_string()));
    assert!(app.select_diff_path("a.rs".to_string()));
    assert!(app.select_branch(BranchScope::Local, "main".to_string()));
    assert!(app.select_branch(BranchScope::Remote, "origin/main".to_string()));
    assert!(ok_refresh(&mut app, vec![item(" M", "a.rs")], strings(&["a.rs", "b.rs"]), strings(&["main"]), strings(&["origin/main"])));
    assert_eq!(app.selected_file, Some("b.rs".to_string()));
    assert_eq!(app.selected_diff_path, Some("a.rs".to_string()));
    assert_eq!(app.selected_local_branch, Some("main".to_string()));
    assert!(ok_refresh(&mut app, vec![], strings(&["c.rs"]), strings(&["dev"]), vec![]));
    assert_eq!(app.selected_file, Some("c.rs".to_string()));
    assert_eq!(app.selected_diff_path, None);
    assert_eq!(app.selected_local_branch, None);
    assert_eq!(app.selected_remote_branch, None);
    assert!(ok_refresh(&mut app, vec![], vec![], vec![], vec![]));
    assert_eq!(app.selected_file, None);
}

#[test]
fn refresh_failure_clears_and_reports_first_error() {
    let mut app = GitizenApp::new("/ws".to_string());
    ok_refresh(&mut app, vec![item(" M", "a.rs")], strings(&["a.rs"]), strings(&["main"]), vec![]);
    let ok = app.refresh(
        Ok(vec![]),
        Err(GitStatusError::WorkspaceNotFound("/ws".to_string())),
        Ok(String::new()),
        Err(GitStatusError::OpenRepo("bad".to_string())),
        Ok(vec![]),
    );
    assert!(!ok);
    assert_eq!(app.error, Some("Workspace path does not exist: /ws".to_string()));
    assert!(app.files.is_empty() && app.changes.is_empty() && app.local_branches.is_empty());
    assert_eq!(app.selected_file, None);
    assert_eq!(app.diff_output, "");
}

#[test]
fn loading_texts() {
    let mut app = GitizenApp::new("/ws".to_string());
    ok_refresh(&mut app, vec![item(" M", "a.rs")], strings(&["a.rs"]), vec![], vec![]);
    assert_eq!(app.file_read_request(), Some("a.rs".to_string()));
    app.load_selected_file_content(Some(Ok("fn main() {}".to_string())));
    assert_eq!(app.selected_file_content, "fn main() {}");
    app.load_selected_file_content(Some(Err(GitStatusError::ReadFile { path: "/ws/a.rs".to_string(), source: "gone".to_string() })));
    assert_eq!(app.selected_file_content, "Unable to read file:\nFailed to read file /ws/a.rs: gone");
    app.load_selected_file_content(None);
    assert_eq!(app.selected_file_content, "No file selected.");
    assert_eq!(app.diff_read_request(), None);
    app.load_selected_diff_content(None, None);
    assert_eq!(app.selected_diff_output, "DIFF");
    app.load_selected_diff_content(Some(("a.rs".to_string(), Err(GitStatusError::OpenRepo("x".to_string())))), None);
    assert_eq!(app.selected_diff_output, "Unable to load diff for a.rs:\nFailed to open git repository: x");
    app.load_selected_diff_content(Some(("a.rs".to_string(), Ok("D".to_string()))), Some(SplitDiffModel::default()));
    assert_eq!(app.selected_diff_output, "D");
}

#[test]
fn headings_and_details() {
    let mut app = GitizenApp::new("/ws".to_string());
    assert_eq!(app.diff_heading(), "Repository Diff");
    assert_eq!(app.file_editor_label(), "No file selected");
    assert_eq!(app.branch_details_text(), "Scope: Local\nNo branch selected");
    ok_refresh(&mut app, vec![item("A ", "x.rs")], strings(&["x.rs"]), vec![], strings(&["origin/x"]));
    assert!(app.select_diff_path("x.rs".to_string()));
    assert_eq!(app.diff_heading(), "Diff: x.rs");
    assert!(app.select_branch(BranchScope::Remote, "origin/x".to_string()));
    app.branch_panel_state.scope = BranchScope::Remote;
    assert_eq!(app.branch_details_text(), "Scope: Remote\nSelected: origin/x");
    app.toggle_left_panel();
    assert_eq!(app.left_panel_toggle_label(), "Show Left Panel");
}

#[test]
fn setters_ignore_unlisted_names() {
    let mut app = GitizenApp::new("/ws".to_string());
    assert!(!app.select_file("a.rs".to_string()));
    assert!(!app.select_diff_path("a.rs".to_string()));
    assert!(!app.select_branch(BranchScope::Local, "main".to_string()));
    assert!(!app.select_branch(BranchScope::Remote, "origin/main".to_string()));
    assert!(app.selected_file.is_none() && app.selected_diff_path.is_none());
    assert!(app.selected_local_branch.is_none() && app.selected_remote_branch.is_none());
    ok_refresh(&mut app, vec![item(" M", "a.rs")], strings(&["a.rs", "b.rs"]), strings(&["main"]), strings(&["origin/main"]));
    assert!(!app.select_file("c.rs".to_string()));
    assert_eq!(app.selected_file, Some("a.rs".to_string()));
    assert!(!app.select_diff_path("b.rs".to_string()));
    assert_eq!(app.selected_diff_path, None);
    assert!(!app.select_branch(BranchScope::Local, "origin/main".to_string()));
    assert!(!app.select_branch(BranchScope::Remote, "main".to_string()));
    assert!(app.selected_local_branch.is_none() && app.selected_remote_branch.is_none());
    assert!(app.select_branch(BranchScope::Local, "main".to_string()));
    assert_eq!(app.selected_local_branch, Some("main".to_string()));
}

#[test]
fn first_file_in_directory() {
    let files = strings(&["README.md", "src/lib.rs", "src/main.rs", "srcx/a.rs"]);
    assert_eq!(first_file_in_dir(&files, "src"), Some("src/lib.rs".to_string()));
    assert_eq!(first_file_in_dir(&files, "srcx"), Some("srcx/a.rs".to_string()));
    assert_eq!(first_file_in_dir(&files, "docs"), None);
}

#[test]
fn refresh_twice_changes_nothing() {
    fn cycle(app: &mut GitizenApp) {
        let ok = app.refresh(
            Ok(vec![item(" M", "a.rs"), item("A ", "b.rs")]),
            Ok(strings(&["a.rs", "b.rs"])),
            Ok("DIFF".to_string()),
            Ok(strings(&["main"])),
            Ok(strings(&["origin/main"])),
        );
        if ok {
            let file = app.file_read_request().map(|p| Ok(format!("text of {p}")));
            app.load_selected_file_content(file);
            let diff = app.diff_read_request().map(|p| (p.clone(), Ok(format!("diff of {p}"))));
            app.load_selected_diff_content(diff, None);
        }
    }
    let mut app = GitizenApp::new("/ws".to_string());
    cycle(&mut app);
    assert!(app.select_diff_path("b.rs".to_string()));
    assert!(!app.select_branch(BranchScope::Local, "gone".to_string()));
    cycle(&mut app);
    let first = format!("{app:?}");
    cycle(&mut app);
    assert_eq!(format!("{app:?}"), first);
    assert_eq!(app.selected_file_content, "text of a.rs");
    assert_eq!(app.selected_diff_output, "diff of b.rs");
    assert_eq!(app.selected_local_branch, None);
}

#[test]
fn clicking_a_listed_row_focuses_a_listed_branch() {
    let locals = strings(&["main", "feature/login"]);
    let remotes = strings(&["origin/main"]);
    let mut s = BranchSelectorState::default();
    for name in filter_branches(&locals, "LOGIN") {
        handle_event(&mut s, BranchSelectorEvent::LocalClicked(name), &locals, &remotes);
        assert!(locals.contains(s.focused_local_branch.as_ref().unwrap()));
        assert!(s.focused_remote_branch.is_none());
    }
    for name in filter_branches(&remotes, "") {
        handle_event(&mut s, BranchSelectorEvent::RemoteClicked(name), &locals, &remotes);
        assert!(remotes.contains(s.focused_remote_branch.as_ref().unwrap()));
        assert!(s.focused_local_branch.is_none());
    }
}

#[test]
fn clicks_on_unlisted_names_do_nothing() {
    let mut s = BranchSelectorState::default();
    assert_eq!(handle_event(&mut s, BranchSelectorEvent::LocalClicked("ghost".to_string()), &local_rows(), &remote_rows()), None);
    assert_eq!(s.focused_local_branch, None);
    assert_eq!(handle_event(&mut s, BranchSelectorEvent::LocalDoubleClicked("ghost".to_string()), &local_rows(), &remote_rows()), None);
    s.search_query = "x".to_string();
    assert_eq!(handle_event(&mut s, BranchSelectorEvent::RemoteClicked("origin/dev".to_string()), &local_rows(), &remote_rows()), None);
    assert_eq!(s.focused_remote_branch, None);
    assert_eq!(handle_event(&mut s, BranchSelectorEvent::RemoteClicked("origin/x".to_string()), &local_rows(), &remote_rows()), None);
    assert_eq!(s.focused_remote_branch, Some("origin/x".to_string()));
}
