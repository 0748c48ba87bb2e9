//! The diff display: its modes and the side-by-side model with the colours of
//! its cells.
use vstd::prelude::*;

verus! {

broadcast use vstd::string::group_string_axioms;

/// One text with highlighting, or two columns side by side.
#[derive(Debug, Clone, Copy, PartialEq, Eq)]
pub enum DiffRenderMode {
    Unified,
    Split,
}

impl Default for DiffRenderMode {
    fn default() -> (res: Self)
        ensures
            res == DiffRenderMode::Unified,
    {
        DiffRenderMode::Unified
    }
}

/// What a cell of the side-by-side diff shows.
#[derive(Debug, Clone, Copy, PartialEq, Eq)]
pub enum SplitCellKind {
    Blank,
    Context,
    Added,
    Removed,
    Meta,
}

/// One row of the side-by-side diff.
#[derive(Debug, Clone, PartialEq, Eq)]
pub struct SplitDiffRow {
    pub left: String,
    pub right: String,
    pub language: String,
    pub left_kind: SplitCellKind,
    pub right_kind: SplitCellKind,
}

/// The rows of a side-by-side diff.
#[derive(Debug, Clone, PartialEq, Eq)]
pub struct SplitDiffModel {
    pub rows: Vec<SplitDiffRow>,
}

impl Default for SplitDiffModel {
    fn default() -> (res: Self)
        ensures
            res.rows@.len() == 0,
    {
        SplitDiffModel { rows: Vec::new() }
    }
}

/// The background of a cell as red, green and blue: dark green for added,
/// dark red for removed, dark grey for meta lines; none otherwise.
pub fn cell_background(kind: SplitCellKind) -> (res: Option<(u8, u8, u8)>)
    ensures
        kind == SplitCellKind::Added ==> res == Some((28u8, 58u8, 39u8)),
        kind == SplitCellKind::Removed ==> res == Some((61u8, 31u8, 31u8)),
        kind == SplitCellKind::Meta ==> res == Some((36u8, 39u8, 46u8)),
        (kind == SplitCellKind::Blank || kind == SplitCellKind::Context) ==> res is None,
{
    match kind {
        SplitCellKind::Added => Some((28, 58, 39)),
        SplitCellKind::Removed => Some((61, 31, 31)),
        SplitCellKind::Meta => Some((36, 39, 46)),
        SplitCellKind::Blank | SplitCellKind::Context => None,
    }
}

/// The text highlighted in a cell: a single space for an empty cell.
pub fn cell_source<'a>(text: &'a str) -> (res: &'a str)
    ensures
        text@.len() == 0 ==> res@ == " "@,
        text@.len() != 0 ==> res == text,
{
    if text.is_empty() {
        " "
    } else {
        text
    }
}

} // verus!
