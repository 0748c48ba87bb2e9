use gitizen::git_status::{
    classify_dir_entry, collect_changes, diff_report, format_status_code, map_entry,
    no_diff_message, no_diff_message_for_path, relative_path_text, render_patch_lines,
    sort_changes_by_path, sort_strings, ChangeItem, DirEntryAction, GitStatusError, StatusEntryInfo,
    StatusFlags,
};
use gitizen::tree_view::{
    child_prefix, collect_tree_entries, dir_path_of_prefix, leaf_name, normalize_path, TreeItem,
};

fn item(code: &str, path: &str) -> ChangeItem {
    ChangeItem { code: code.to_string(), path: path.to_string() }
}

fn strings(v: &[&str]) -> Vec<String> {
    v.iter().map(|s| s.to_string()).collect()
}

#[test]
fn status_codes() {
    let mut f = StatusFlags::default();
    assert_eq!(format_status_code(f), "  ");
    f.index_new = true;
    f.index_modified = true;
    f.wt_modified = true;
    assert_eq!(format_status_code(f), "AM");
    let g = StatusFlags { wt_new: true, ..StatusFlags::default() };
    assert_eq!(format_status_code(g), " ?");
    let h = StatusFlags { index_renamed: true, wt_typechange: true, wt_renamed: true, ..StatusFlags::default() };
    assert_eq!(format_status_code(h), "RT");
    let d = StatusFlags { index_deleted: true, wt_deleted: true, ..StatusFlags::default() };
    assert_eq!(format_status_code(d), "DD");
    let t = StatusFlags { index_typechange: true, wt_renamed: true, ..StatusFlags::default() };
    assert_eq!(format_status_code(t), "TR");
}

#[test]
fn entry_paths_prefer_staged_then_unstaged() {
    let flags = StatusFlags { index_modified: true, ..StatusFlags::default() };
    let e = StatusEntryInfo {
        status: flags,
        head_to_index_path: Some("new.rs".to_string()),
        index_to_workdir_path: Some("other.rs".to_string()),
        entry_path: Some("old.rs".to_string()),
    };
    assert_eq!(map_entry(&e), item("M ", "new.rs"));
    let e2 = StatusEntryInfo { head_to_index_path: None, ..e.clone() };
    assert_eq!(map_entry(&e2).path, "other.rs");
    let e3 = StatusEntryInfo { index_to_workdir_path: None, ..e2.clone() };
    assert_eq!(map_entry(&e3).path, "old.rs");
    let e4 = StatusEntryInfo { entry_path: None, ..e3 };
    assert_eq!(map_entry(&e4).path, "<unknown>");
}

#[test]
fn changes_sorted_by_path_stably() {
    let items = vec![item("M ", "src/b.rs"), item(" ?", "README"), item("A ", "src/a.rs"), item(" M", "README")];
    let sorted = sort_changes_by_path(&items);
    assert_eq!(sorted, vec![item(" ?", "README"), item(" M", "README"), item("A ", "src/a.rs"), item("M ", "src/b.rs")]);
    assert_eq!(sort_changes_by_path(&vec![]), vec![]);
}

#[test]
fn collect_changes_maps_and_sorts() {
    let entries = vec![
        StatusEntryInfo {
            status: StatusFlags { wt_new: true, ..StatusFlags::default() },
            head_to_index_path: None,
            index_to_workdir_path: Some("z.txt".to_string()),
            entry_path: Some("z.txt".to_string()),
        },
        StatusEntryInfo {
            status: StatusFlags { index_new: true, ..StatusFlags::default() },
            head_to_index_path: Some("a.txt".to_string()),
            index_to_workdir_path: None,
            entry_path: Some("a.txt".to_string()),
        },
    ];
    assert_eq!(collect_changes(&entries), vec![item("A ", "a.txt"), item(" ?", "z.txt")]);
}

#[test]
fn dir_entry_classification() {
    assert_eq!(classify_dir_entry(".git", true, false, false), DirEntryAction::Skip);
    assert_eq!(classify_dir_entry("src", true, false, false), DirEntryAction::Descend);
    assert_eq!(classify_dir_entry("target", true, false, true), DirEntryAction::Skip);
    assert_eq!(classify_dir_entry("a.rs", false, true, false), DirEntryAction::AddFile);
    assert_eq!(classify_dir_entry("a.log", false, true, true), DirEntryAction::Skip);
    assert_eq!(classify_dir_entry("sock", false, false, false), DirEntryAction::Skip);
    assert_eq!(relative_path_text("src\\ui\\mod.rs"), "src/ui/mod.rs");
}

#[test]
fn strings_sorted_ascending() {
    let v = strings(&["src/b", "Cargo.toml", "src/a", "README", "src/a"]);
    assert_eq!(sort_strings(&v), strings(&["Cargo.toml", "README", "src/a", "src/a", "src/b"]));
    let mut expected = v.clone();
    expected.sort();
    assert_eq!(sort_strings(&v), expected);
}

#[test]
fn patch_lines_skip_invalid_utf8() {
    let lines = vec![b"diff --git a/x b/x\n".to_vec(), vec![0xff, 0xfe, b'\n'], "+é\n".as_bytes().to_vec()];
    assert_eq!(render_patch_lines(&lines), "diff --git a/x b/x\n+é\n");
    assert_eq!(render_patch_lines(&vec![]), "");
}

#[test]
fn diff_reports() {
    let both = diff_report(Some("S".to_string()), Some("U".to_string()), "No diff changes.");
    assert_eq!(both, "## Staged\nS\n## Unstaged\nU");
    assert_eq!(diff_report(None, Some("U".to_string()), "none"), "## Unstaged\nU");
    assert_eq!(diff_report(Some("".to_string()), None, "none"), "## Staged\n\n");
    assert_eq!(diff_report(None, None, "No diff changes."), "No diff changes.");
    assert_eq!(no_diff_message(), "No diff changes.");
    assert_eq!(no_diff_message_for_path("src/a.rs"), "No diff changes for src/a.rs.");
}

#[test]
fn error_messages() {
    assert_eq!(GitStatusError::WorkspaceNotFound("/x".to_string()).message(), "Workspace path does not exist: /x");
    assert_eq!(GitStatusError::OpenRepo("not a repo".to_string()).message(), "Failed to open git repository: not a repo");
    assert_eq!(
        GitStatusError::ReadFile { path: "/r/a".to_string(), source: "denied".to_string() }.message(),
        "Failed to read file /r/a: denied"
    );
}

#[test]
fn tree_entries_under_prefix() {
    let paths = strings(&["src/main.rs", "README.md", "src/ui/mod.rs", "Cargo.toml", "src/lib.rs", "docs/a.md", "src/ui/view.rs", "README.md"]);
    let (dirs, leaves) = collect_tree_entries(&paths, "");
    assert_eq!(dirs, strings(&["docs", "src"]));
    assert_eq!(leaves, vec![3, 1, 7]);
    let (dirs, leaves) = collect_tree_entries(&paths, "src/");
    assert_eq!(dirs, strings(&["ui"]));
    assert_eq!(leaves, vec![4, 0]);
    let (dirs, leaves) = collect_tree_entries(&paths, "src/ui/");
    assert!(dirs.is_empty());
    assert_eq!(leaves, vec![2, 6]);
    let (dirs, leaves) = collect_tree_entries(&paths, "missing/");
    assert!(dirs.is_empty() && leaves.is_empty());
}

#[test]
fn tree_every_file_reached_once() {
    let paths = strings(&["a/b/c.txt", "a/d.txt", "e.txt", "a/b/f.txt"]);
    fn walk(paths: &Vec<String>, prefix: &str, out: &mut Vec<usize>) {
        let (dirs, leaves) = collect_tree_entries(paths, prefix);
        for d in dirs {
            let next = child_prefix(prefix, &d);
            walk(paths, &next, out);
        }
        out.extend(leaves);
    }
    let mut seen = Vec::new();
    walk(&paths, "", &mut seen);
    seen.sort();
    assert_eq!(seen, vec![0, 1, 2, 3]);
}

#[test]
fn tree_never_lists_empty_or_directory_paths() {
    let paths = strings(&["a/b/c.txt", "", "a/", "a/b/", "e.txt"]);
    fn walk(paths: &Vec<String>, prefix: &str, out: &mut Vec<usize>) {
        let (dirs, leaves) = collect_tree_entries(paths, prefix);
        for d in dirs {
            let next = child_prefix(prefix, &d);
            walk(paths, &next, out);
        }
        out.extend(leaves);
    }
    let mut seen = Vec::new();
    walk(&paths, "", &mut seen);
    seen.sort();
    assert_eq!(seen, vec![0, 4]);
}

#[test]
fn tree_names_and_prefixes() {
    assert_eq!(normalize_path("a\\b\\c.rs"), "a/b/c.rs");
    assert_eq!(normalize_path(&normalize_path("a\\b")), normalize_path("a\\b"));
    assert_eq!(leaf_name("src/ui/mod.rs"), "mod.rs");
    assert_eq!(leaf_name("top.rs"), "top.rs");
    assert_eq!(child_prefix("src/", "ui"), "src/ui/");
    assert_eq!(dir_path_of_prefix("src/ui/"), "src/ui");
    let payload = 5u8;
    let t = TreeItem { path: "x/y", payload: &payload };
    assert_eq!(t.path, "x/y");
    assert_eq!(*t.payload, 5);
}
