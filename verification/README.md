# Gitizen

A desktop browser for a git workspace: a file tree with a read-only code view,
the list or tree of changed files with their diffs, and the local and remote
branches.

- `src/` is the verified library. It holds everything the program computes
  from what the repository reports: status codes and the sorted list of
  changes, the file listing rules, the diff report text, the directory tree of
  a path list, branch search, the branch selector's event handling, the
  window state with its refresh and selection rules, labels and languages.
  Each public function states its result in its contract, and the laws that
  relate several calls are proof functions: stable sorting and its
  uniqueness, descending order as the reverse of ascending, drawing the tree
  listing every file (a path that is not empty and does not end in `/`)
  exactly once and never an empty path or one that ends in `/`, a second
  refresh from unchanged reads changing nothing, normalization and case
  folding. The branch selector ignores a click on a name that the search
  does not show, so for every event the focus stays on a listed branch once
  it is on one; the window's setters select only listed names, so every
  event keeps the selections valid.
- `app/` is the program around it: reading the repository with `git2` and the
  file system, and drawing the window with `eframe`/`egui`.
- `tests/` runs the library on concrete values.
