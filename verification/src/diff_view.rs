//! The changed-files panel: its state, and the order and labels of its rows.
use vstd::prelude::*;

use crate::git_status::{ChangeItem, change_paths};
use crate::ordering::{
    is_index_permutation, key_before, lemma_sorted_order_unique, stable_order, views_of,
};
use crate::text::{chars_of, concat3};

verus! {

broadcast use vstd::string::group_string_axioms;

/// What the changed-files panel asks for.
#[derive(Debug, Clone, PartialEq, Eq)]
pub enum DiffAction {
    SelectPath(String),
}

/// A directory tree or a flat list.
#[derive(Debug, Clone, Copy, PartialEq, Eq)]
pub enum DiffDisplayMode {
    Tree,
    List,
}

/// What the list is sorted by first.
#[derive(Debug, Clone, Copy, PartialEq, Eq)]
pub enum DiffSortKey {
    Path,
    Status,
}

/// Ascending or descending.
#[derive(Debug, Clone, Copy, PartialEq, Eq)]
pub enum SortOrder {
    Asc,
    Desc,
}

/// How the changed files are shown.
#[derive(Debug, Clone, Copy, PartialEq, Eq)]
pub struct DiffPanelState {
    pub mode: DiffDisplayMode,
    pub sort_key: DiffSortKey,
    pub sort_order: SortOrder,
}

impl Default for DiffPanelState {
    fn default() -> (res: Self)
        ensures
            res.mode == DiffDisplayMode::Tree,
            res.sort_key == DiffSortKey::Path,
            res.sort_order == SortOrder::Asc,
    {
        DiffPanelState {
            mode: DiffDisplayMode::Tree,
            sort_key: DiffSortKey::Path,
            sort_order: SortOrder::Asc,
        }
    }
}

/// The other order.
pub open spec fn toggled(order: SortOrder) -> SortOrder {
    match order {
        SortOrder::Asc => SortOrder::Desc,
        SortOrder::Desc => SortOrder::Asc,
    }
}

/// The order after the order button is pressed.
pub fn toggle_sort_order(order: SortOrder) -> (res: SortOrder)
    ensures
        res == toggled(order),
{
    match order {
        SortOrder::Asc => SortOrder::Desc,
        SortOrder::Desc => SortOrder::Asc,
    }
}

/// Pressing the order button twice restores the order.
pub proof fn lemma_toggle_twice(order: SortOrder)
    ensures
        toggled(toggled(order)) == order,
{
}

/// The label of the order button.
pub fn sort_order_label(order: SortOrder) -> (res: &'static str)
    ensures
        order == SortOrder::Asc ==> res@ == "Asc"@,
        order == SortOrder::Desc ==> res@ == "Desc"@,
{
    match order {
        SortOrder::Asc => "Asc",
        SortOrder::Desc => "Desc",
    }
}

/// The label of a sort key.
pub fn sort_key_label(key: DiffSortKey) -> (res: &'static str)
    ensures
        key == DiffSortKey::Path ==> res@ == "Path"@,
        key == DiffSortKey::Status ==> res@ == "Status"@,
{
    match key {
        DiffSortKey::Path => "Path",
        DiffSortKey::Status => "Status",
    }
}

/// The status codes of a sequence of change items.
pub open spec fn change_codes(items: Seq<ChangeItem>) -> Seq<Seq<char>> {
    items.map_values(|c: ChangeItem| c.code@)
}

/// The first and the second key by which the list is sorted.
pub open spec fn sort_keys(items: Seq<ChangeItem>, key: DiffSortKey) -> (Seq<Seq<char>>, Seq<Seq<char>>) {
    match key {
        DiffSortKey::Path => (change_paths(items), change_codes(items)),
        DiffSortKey::Status => (change_codes(items), change_paths(items)),
    }
}

/// `p` lists the rows in ascending order by the two keys (ties in list
/// order), or that order reversed for `Desc`.
pub open spec fn rows_in_order(items: Seq<ChangeItem>, key: DiffSortKey, order: SortOrder, p: Seq<usize>) -> bool {
    let (first, second) = sort_keys(items, key);
    forall|a: int, b: int|
        0 <= a < b < p.len() ==> match order {
            SortOrder::Asc => key_before(first, second, #[trigger] p[a] as int, #[trigger] p[b] as int),
            SortOrder::Desc => key_before(first, second, p[b] as int, p[a] as int),
        }
}

/// The two keys of every item as character vectors.
fn item_keys(items: &Vec<ChangeItem>) -> (res: (Vec<Vec<char>>, Vec<Vec<char>>))
    ensures
        views_of(res.0@) == change_paths(items@),
        views_of(res.1@) == change_codes(items@),
        res.0.len() == items.len(),
        res.1.len() == items.len(),
{
    let mut paths: Vec<Vec<char>> = Vec::new();
    let mut codes: Vec<Vec<char>> = Vec::new();
    let mut i: usize = 0;
    while i < items.len()
        invariant
            i <= items.len(),
            paths.len() == i,
            codes.len() == i,
            views_of(paths@) == change_paths(items@.take(i as int)),
            views_of(codes@) == change_codes(items@.take(i as int)),
        decreases items.len() - i,
    {
        paths.push(chars_of(items[i].path.as_str()));
        codes.push(chars_of(items[i].code.as_str()));
        i = i + 1;
        assert(change_paths(items@.take(i as int)) =~= change_paths(items@.take(i - 1)).push(
            items@[i - 1].path@,
        ));
        assert(change_codes(items@.take(i as int)) =~= change_codes(items@.take(i - 1)).push(
            items@[i - 1].code@,
        ));
        assert(views_of(paths@) =~= change_paths(items@.take(i as int)));
        assert(views_of(codes@) =~= change_codes(items@.take(i as int)));
    }
    assert(items@.take(items.len() as int) =~= items@);
    (paths, codes)
}

/// The positions of the changes in the order the list shows them.
pub fn list_row_order(changes: &Vec<ChangeItem>, key: DiffSortKey, order: SortOrder) -> (res: Vec<usize>)
    ensures
        is_index_permutation(res@, changes.len() as nat),
        rows_in_order(changes@, key, order, res@),
{
    let (paths, codes) = item_keys(changes);
    let sorted = match key {
        DiffSortKey::Path => stable_order(&paths, &codes),
        DiffSortKey::Status => stable_order(&codes, &paths),
    };
    match order {
        SortOrder::Asc => sorted,
        SortOrder::Desc => {
            let n = sorted.len();
            let mut out: Vec<usize> = Vec::new();
            let mut k: usize = 0;
            while k < n
                invariant
                    n == sorted.len(),
                    k <= n,
                    out.len() == k,
                    forall|j: int| 0 <= j < k ==> #[trigger] out@[j] == sorted@[n - 1 - j],
                decreases n - k,
            {
                out.push(sorted[n - 1 - k]);
                k = k + 1;
            }
            proof {
                assert forall|j: int| 0 <= j < out@.len() implies #[trigger] out@[j] < changes.len() by {
                    assert(out@[j] == sorted@[n - 1 - j]);
                }
                assert forall|a: int, b: int| 0 <= a < b < out@.len() implies out@[a] != out@[b] by {
                    assert(out@[a] == sorted@[n - 1 - a]);
                    assert(out@[b] == sorted@[n - 1 - b]);
                }
                let (first, second) = sort_keys(changes@, key);
                assert forall|a: int, b: int| 0 <= a < b < out@.len() implies key_before(
                    first,
                    second,
                    #[trigger] out@[b] as int,
                    #[trigger] out@[a] as int,
                ) by {
                    assert(out@[a] == sorted@[n - 1 - a]);
                    assert(out@[b] == sorted@[n - 1 - b]);
                }
            }
            out
        },
    }
}

/// The descending order is the ascending order reversed: for the same
/// changes and key, the two orders of the rows are each other's reverse.
pub proof fn lemma_desc_reverses_asc(
    items: Seq<ChangeItem>,
    key: DiffSortKey,
    asc: Seq<usize>,
    desc: Seq<usize>,
)
    requires
        is_index_permutation(asc, items.len()),
        is_index_permutation(desc, items.len()),
        rows_in_order(items, key, SortOrder::Asc, asc),
        rows_in_order(items, key, SortOrder::Desc, desc),
    ensures
        desc == asc.reverse(),
{
    let (first, second) = sort_keys(items, key);
    let r = desc.reverse();
    let n = desc.len();
    assert forall|k: int| 0 <= k < r.len() implies #[trigger] r[k] < items.len() by {
        assert(r[k] == desc[n - 1 - k]);
    }
    assert forall|a: int, b: int| 0 <= a < b < r.len() implies r[a] != r[b] by {
        assert(r[a] == desc[n - 1 - a]);
        assert(r[b] == desc[n - 1 - b]);
    }
    assert forall|a: int, b: int| 0 <= a < b < r.len() implies key_before(
        first,
        second,
        #[trigger] r[a] as int,
        #[trigger] r[b] as int,
    ) by {
        assert(r[a] == desc[n - 1 - a]);
        assert(r[b] == desc[n - 1 - b]);
        assert(key_before(first, second, desc[n - 1 - a] as int, desc[n - 1 - b] as int));
    }
    lemma_sorted_order_unique(first, second, asc, r, items.len());
    assert(r.reverse() =~= desc);
}

/// The label of a change row: its status code, a space, and its name.
pub fn change_label(code: &str, name: &str) -> (res: String)
    ensures
        res@ == code@ + " "@ + name@,
{
    concat3(code, " ", name)
}

} // verus!
