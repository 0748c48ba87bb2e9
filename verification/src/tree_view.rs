//! The directory tree of a flat list of slash-separated paths: which
//! directories and which files stand directly under a prefix.
use vstd::prelude::*;

use crate::git_status::{string_keys, string_views};
use crate::ordering::{
    empty_keys, insert_in_order, insert_unique_sorted, lemma_sorted_by_primary,
    stably_sorted_by, strictly_increasing, views_of,
};
use crate::text::{
    lemma_seq_lt_irreflexive,
    after_last, after_last_index, chars_of, concat3, first_index_of, first_index_of_char,
    replace_char, replace_char_seq, slice_chars, starts_with_chars, starts_with_seq,
    string_from_chars, trim_end_char, trim_end_char_seq,
};

verus! {

broadcast use vstd::string::group_string_axioms;

/// One entry of a tree: its path and what the caller attached to it.
pub struct TreeItem<'a, T> {
    pub path: &'a str,
    pub payload: &'a T,
}

/// A path with `/` in place of every `\`.
pub fn normalize_path(path: &str) -> (res: String)
    ensures
        res@ == replace_char_seq(path@, '\\', '/'),
{
    replace_char(path, '\\', '/')
}

/// Normalizing a normalized path changes nothing.
pub proof fn lemma_normalize_idempotent(path: Seq<char>)
    ensures
        replace_char_seq(replace_char_seq(path, '\\', '/'), '\\', '/') == replace_char_seq(path, '\\', '/'),
{
    assert(replace_char_seq(replace_char_seq(path, '\\', '/'), '\\', '/') =~= replace_char_seq(path, '\\', '/'));
}

/// The part of a path after a prefix.
pub open spec fn entry_rest(path: Seq<char>, prefix: Seq<char>) -> Seq<char> {
    path.skip(prefix.len() as int)
}

/// The path lies strictly below the prefix.
pub open spec fn is_under(path: Seq<char>, prefix: Seq<char>) -> bool {
    starts_with_seq(path, prefix) && path.len() > prefix.len()
}

/// Below the prefix, the path continues into a directory.
pub open spec fn is_dir_entry(path: Seq<char>, prefix: Seq<char>) -> bool {
    is_under(path, prefix) && first_index_of(entry_rest(path, prefix), '/') < entry_rest(
        path,
        prefix,
    ).len()
}

/// Below the prefix, the path names a file directly.
pub open spec fn is_leaf_entry(path: Seq<char>, prefix: Seq<char>) -> bool {
    is_under(path, prefix) && first_index_of(entry_rest(path, prefix), '/') == entry_rest(
        path,
        prefix,
    ).len()
}

/// The directory into which the path continues below the prefix.
pub open spec fn dir_name_of(path: Seq<char>, prefix: Seq<char>) -> Seq<char> {
    entry_rest(path, prefix).take(first_index_of(entry_rest(path, prefix), '/'))
}

/// Some path among the first `upto` continues below the prefix into `d`.
pub open spec fn has_dir_named(paths: Seq<Seq<char>>, prefix: Seq<char>, upto: int, d: Seq<char>) -> bool {
    exists|j: int|
        0 <= j < upto && is_dir_entry(paths[j], prefix) && #[trigger] dir_name_of(paths[j], prefix)
            == d
}

/// Taking one more path into account adds its directory, if it continues
/// into one below the prefix.
proof fn lemma_has_dir_named_step(paths: Seq<Seq<char>>, prefix: Seq<char>, i: int, d: Seq<char>)
    requires
        0 <= i,
    ensures
        has_dir_named(paths, prefix, i + 1, d) <==> (has_dir_named(paths, prefix, i, d) || (
        is_dir_entry(paths[i], prefix) && dir_name_of(paths[i], prefix) == d)),
{
    if has_dir_named(paths, prefix, i + 1, d) {
        let j = choose|j: int|
            0 <= j < i + 1 && is_dir_entry(paths[j], prefix) && #[trigger] dir_name_of(
                paths[j],
                prefix,
            ) == d;
        if j < i {
            assert(has_dir_named(paths, prefix, i, d));
        }
    }
    if has_dir_named(paths, prefix, i, d) {
        let j = choose|j: int|
            0 <= j < i && is_dir_entry(paths[j], prefix) && #[trigger] dir_name_of(paths[j], prefix)
                == d;
        assert(has_dir_named(paths, prefix, i + 1, d));
    }
    if is_dir_entry(paths[i], prefix) && dir_name_of(paths[i], prefix) == d {
        assert(has_dir_named(paths, prefix, i + 1, d));
    }
}

proof fn lemma_first_index_bounds(s: Seq<char>, c: char)
    ensures
        0 <= first_index_of(s, c) <= s.len(),
        first_index_of(s, c) < s.len() ==> s[first_index_of(s, c)] == c,
        forall|j: int| 0 <= j < first_index_of(s, c) ==> s[j] != c,
    decreases s.len(),
{
    if s.len() > 0 && s[0] != c {
        lemma_first_index_bounds(s.drop_first(), c);
        assert forall|j: int| 0 <= j < first_index_of(s, c) implies s[j] != c by {
            if j > 0 {
                assert(s[j] == s.drop_first()[j - 1]);
            }
        }
    }
}

/// The directories (ascending, each once) and the files (by path, ties in
/// list order) that stand directly under `prefix` among the paths; the files
/// are given by their positions in the list.
pub fn collect_tree_entries(paths: &Vec<String>, prefix: &str) -> (res: (Vec<String>, Vec<usize>))
    ensures
        strictly_increasing(string_views(res.0@)),
        forall|d: Seq<char>|
            #[trigger] string_views(res.0@).contains(d) <==> has_dir_named(
                string_views(paths@),
                prefix@,
                paths.len() as int,
                d,
            ),
        forall|i: usize|
            #[trigger] res.1@.contains(i) <==> (i < paths.len() && is_leaf_entry(
                paths@[i as int]@,
                prefix@,
            )),
        forall|a: int, b: int| 0 <= a < b < res.1@.len() ==> res.1@[a] != res.1@[b],
        forall|k: int| 0 <= k < res.1@.len() ==> #[trigger] res.1@[k] < paths.len(),
        stably_sorted_by(string_views(paths@), res.1@),
        level_listing(string_views(paths@), prefix@, string_views(res.0@), res.1@),
{
    let ghost pv = string_views(paths@);
    let keys = string_keys(paths);
    let empties = empty_keys(paths.len());
    let pre = chars_of(prefix);
    let mut dirs: Vec<Vec<char>> = Vec::new();
    let mut leaves: Vec<usize> = Vec::new();
    let mut i: usize = 0;
    while i < paths.len()
        invariant
            pv == string_views(paths@),
            views_of(keys@) == pv,
            keys.len() == paths.len(),
            empties.len() == paths.len(),
            forall|k: int| 0 <= k < empties.len() ==> (#[trigger] empties@[k])@.len() == 0,
            pre@ == prefix@,
            i <= paths.len(),
            strictly_increasing(views_of(dirs@)),
            forall|d: Seq<char>|
                #[trigger] views_of(dirs@).contains(d) <==> has_dir_named(pv, prefix@, i as int, d),
            forall|x: usize| #[trigger]
                leaves@.contains(x) <==> (x < i && is_leaf_entry(pv[x as int], prefix@)),
            forall|k: int| 0 <= k < leaves@.len() ==> #[trigger] leaves@[k] < i,
            forall|a: int, b: int| 0 <= a < b < leaves@.len() ==> leaves@[a] != leaves@[b],
            crate::ordering::sorted_by_keys(views_of(keys@), views_of(empties@), leaves@),
        decreases paths.len() - i,
    {
        let path = &keys[i];
        assert(path@ == pv[i as int]);
        if starts_with_chars(path, &pre) && path.len() > pre.len() {
            let rest = slice_chars(path, pre.len(), path.len());
            assert(rest@ =~= entry_rest(pv[i as int], prefix@));
            let idx = first_index_of_char(&rest, '/');
            if idx < rest.len() {
                let d = slice_chars(&rest, 0, idx);
                assert(d@ =~= dir_name_of(pv[i as int], prefix@));
                insert_unique_sorted(&mut dirs, d);
            } else {
                insert_in_order(&mut leaves, &keys, &empties, i);
            }
        }
        proof {
            assert forall|e: Seq<char>| #[trigger]
                views_of(dirs@).contains(e) <==> has_dir_named(pv, prefix@, i + 1, e) by {
                lemma_has_dir_named_step(pv, prefix@, i as int, e);
            }
        }
        i = i + 1;
    }
    proof {
        lemma_sorted_by_primary(views_of(keys@), views_of(empties@), leaves@);
    }
    let mut names: Vec<String> = Vec::new();
    let mut k: usize = 0;
    while k < dirs.len()
        invariant
            k <= dirs.len(),
            names.len() == k,
            forall|j: int| 0 <= j < k ==> (#[trigger] names@[j])@ == dirs@[j]@,
        decreases dirs.len() - k,
    {
        names.push(string_from_chars(&dirs[k]));
        k = k + 1;
    }
    assert(string_views(names@) =~= views_of(dirs@));
    (names, leaves)
}

/// The name shown for a file: the part of its path after the last `/`.
pub fn leaf_name(normalized_path: &str) -> (res: String)
    ensures
        res@ == after_last(normalized_path@, '/'),
{
    let v = chars_of(normalized_path);
    let k = after_last_index(&v, '/');
    let out = slice_chars(&v, k, v.len());
    string_from_chars(&out)
}

/// The prefix of the entries inside directory `dir_name` under `prefix`.
pub fn child_prefix(prefix: &str, dir_name: &str) -> (res: String)
    ensures
        res@ == prefix@ + dir_name@ + seq!['/'],
{
    let r = concat3(prefix, dir_name, "/");
    proof {
        reveal_strlit("/");
    }
    r
}

/// The path of a directory from the prefix of its entries.
pub fn dir_path_of_prefix(child: &str) -> (res: String)
    ensures
        res@ == trim_end_char_seq(child@, '/'),
{
    trim_end_char(child, '/')
}

/// A path that continues below `prefix` into a directory lies under that
/// directory's own prefix, which is longer: every file below a prefix is
/// reached by descending.
pub proof fn lemma_dir_entry_descends(path: Seq<char>, prefix: Seq<char>)
    requires
        is_dir_entry(path, prefix),
    ensures
        starts_with_seq(path, prefix + dir_name_of(path, prefix) + seq!['/']),
        (prefix + dir_name_of(path, prefix) + seq!['/']).len() > prefix.len(),
        !dir_name_of(path, prefix).contains('/'),
{
    let rest = entry_rest(path, prefix);
    lemma_first_index_bounds(rest, '/');
    let k = first_index_of(rest, '/');
    let child = prefix + dir_name_of(path, prefix) + seq!['/'];
    assert(child.len() == prefix.len() + k + 1);
    assert forall|j: int| 0 <= j < child.len() implies path.take(child.len() as int)[j] == child[j] by {
        if j < prefix.len() {
            assert(path.take(prefix.len() as int)[j] == prefix[j]);
        } else if j < prefix.len() + k {
            assert(rest[j - prefix.len()] == path[j]);
        } else {
            assert(rest[k] == path[j]);
        }
    }
    assert(path.take(child.len() as int) =~= child);
    let d = dir_name_of(path, prefix);
    assert forall|j: int| 0 <= j < d.len() implies d[j] != '/' by {
        assert(d[j] == rest[j]);
    }
}

/// A path under the prefix of directory `d` (a name without `/`) below
/// `prefix` continues below `prefix` into `d` and into no other directory:
/// every file is listed under one branch only.
pub proof fn lemma_single_branch(path: Seq<char>, prefix: Seq<char>, d: Seq<char>)
    requires
        !d.contains('/'),
        starts_with_seq(path, prefix + d + seq!['/']),
    ensures
        is_dir_entry(path, prefix),
        dir_name_of(path, prefix) == d,
{
    let child = prefix + d + seq!['/'];
    assert(path.take(child.len() as int) =~= child);
    assert forall|j: int| 0 <= j < prefix.len() implies path.take(prefix.len() as int)[j] == prefix[j] by {
        assert(path[j] == child[j]);
    }
    assert(path.take(prefix.len() as int) =~= prefix);
    let rest = entry_rest(path, prefix);
    assert forall|j: int| 0 <= j < d.len() implies rest[j] != '/' by {
        assert(rest[j] == path[prefix.len() + j]);
        assert(path[prefix.len() + j] == child[prefix.len() + j]);
        assert(child[prefix.len() + j] == d[j]);
        if d[j] == '/' {
            assert(d.contains('/'));
        }
    }
    assert(rest[d.len() as int] == path[(prefix.len() + d.len()) as int]);
    assert(path[(prefix.len() + d.len()) as int] == child[(prefix.len() + d.len()) as int]);
    crate::text::lemma_first_index_of(rest, '/', d.len() as int);
    assert forall|j: int| 0 <= j < d.len() implies rest.take(d.len() as int)[j] == d[j] by {
        assert(rest[j] == path[prefix.len() + j]);
        assert(path[prefix.len() + j] == child[prefix.len() + j]);
    }
    assert(rest.take(d.len() as int) =~= d);
}

// ---------------------------------------------------------------------------
// The whole tree
// ---------------------------------------------------------------------------

/// What `collect_tree_entries` gives for one prefix: the directories under
/// it, ascending and each once, and the positions of the files directly
/// under it, each once.
pub open spec fn level_listing(
    paths: Seq<Seq<char>>,
    prefix: Seq<char>,
    dirs: Seq<Seq<char>>,
    leaves: Seq<usize>,
) -> bool {
    &&& strictly_increasing(dirs)
    &&& forall|d: Seq<char>|
        #[trigger] dirs.contains(d) <==> has_dir_named(paths, prefix, paths.len() as int, d)
    &&& forall|x: usize|
        #[trigger] leaves.contains(x) <==> (x < paths.len() && is_leaf_entry(paths[x as int], prefix))
    &&& forall|a: int, b: int| 0 <= a < b < leaves.len() ==> leaves[a] != leaves[b]
}

/// The listing of every prefix is what `collect_tree_entries` gives.
pub open spec fn listings_hold(
    paths: Seq<Seq<char>>,
    listing: spec_fn(Seq<char>) -> (Seq<Seq<char>>, Seq<usize>),
) -> bool {
    forall|prefix: Seq<char>|
        level_listing(paths, prefix, #[trigger] listing(prefix).0, listing(prefix).1)
}

/// The prefix of the entries inside directory `d` under `prefix`.
pub open spec fn child_of(prefix: Seq<char>, d: Seq<char>) -> Seq<char> {
    prefix + d + seq!['/']
}

/// The files that drawing the tree from `prefix` lists, in order: the
/// subtree of each directory under it, then the files directly under it;
/// `depth` bounds how many levels are drawn.
pub open spec fn tree_walk(
    paths: Seq<Seq<char>>,
    listing: spec_fn(Seq<char>) -> (Seq<Seq<char>>, Seq<usize>),
    prefix: Seq<char>,
    depth: nat,
) -> Seq<usize>
    decreases depth, 0nat,
{
    if depth == 0 {
        Seq::empty()
    } else {
        subtree_walks(paths, listing, prefix, listing(prefix).0, (depth - 1) as nat) + listing(
            prefix,
        ).1
    }
}

/// The files that the subtrees of the directories `dirs` under `prefix`
/// list, one subtree after the other.
pub open spec fn subtree_walks(
    paths: Seq<Seq<char>>,
    listing: spec_fn(Seq<char>) -> (Seq<Seq<char>>, Seq<usize>),
    prefix: Seq<char>,
    dirs: Seq<Seq<char>>,
    depth: nat,
) -> Seq<usize>
    decreases depth, dirs.len() + 1,
{
    if dirs.len() == 0 {
        Seq::empty()
    } else {
        subtree_walks(paths, listing, prefix, dirs.drop_last(), depth) + tree_walk(
            paths,
            listing,
            child_of(prefix, dirs.last()),
            depth,
        )
    }
}

/// How often `x` occurs in `s`.
pub open spec fn count_in(s: Seq<usize>, x: usize) -> nat
    decreases s.len(),
{
    if s.len() == 0 {
        0
    } else {
        count_in(s.drop_last(), x) + if s.last() == x {
            1nat
        } else {
            0nat
        }
    }
}

proof fn lemma_count_concat(a: Seq<usize>, b: Seq<usize>, x: usize)
    ensures
        count_in(a + b, x) == count_in(a, x) + count_in(b, x),
    decreases b.len(),
{
    if b.len() == 0 {
        assert(a + b =~= a);
    } else {
        assert((a + b).drop_last() =~= a + b.drop_last());
        lemma_count_concat(a, b.drop_last(), x);
    }
}

proof fn lemma_count_absent(s: Seq<usize>, x: usize)
    requires
        !s.contains(x),
    ensures
        count_in(s, x) == 0,
    decreases s.len(),
{
    if s.len() > 0 {
        assert(s.last() == s[s.len() - 1]);
        assert forall|k: int| 0 <= k < s.drop_last().len() implies s.drop_last()[k] != x by {
            assert(s.drop_last()[k] == s[k]);
        }
        lemma_count_absent(s.drop_last(), x);
    }
}

proof fn lemma_count_unique(s: Seq<usize>, x: usize)
    requires
        s.contains(x),
        forall|a: int, b: int| 0 <= a < b < s.len() ==> s[a] != s[b],
    ensures
        count_in(s, x) == 1,
    decreases s.len(),
{
    let r = s.drop_last();
    if s.last() == x {
        assert forall|k: int| 0 <= k < r.len() implies r[k] != x by {
            assert(r[k] == s[k]);
            assert(s[k] != s[s.len() - 1]);
        }
        lemma_count_absent(r, x);
    } else {
        let k = choose|k: int| 0 <= k < s.len() && s[k] == x;
        assert(k < s.len() - 1);
        assert(r[k] == x);
        assert forall|a: int, b: int| 0 <= a < b < r.len() implies r[a] != r[b] by {
            assert(r[a] == s[a] && r[b] == s[b]);
        }
        lemma_count_unique(r, x);
    }
}

/// A listed directory name holds no `/`.
proof fn lemma_listed_dir_plain(paths: Seq<Seq<char>>, prefix: Seq<char>, d: Seq<char>)
    requires
        has_dir_named(paths, prefix, paths.len() as int, d),
    ensures
        !d.contains('/'),
{
    let j = choose|j: int|
        0 <= j < paths.len() && is_dir_entry(paths[j], prefix) && #[trigger] dir_name_of(
            paths[j],
            prefix,
        ) == d;
    lemma_dir_entry_descends(paths[j], prefix);
}

/// A path under a directory's prefix is under the parent prefix too.
proof fn lemma_under_child(path: Seq<char>, prefix: Seq<char>, d: Seq<char>)
    requires
        is_under(path, child_of(prefix, d)),
    ensures
        is_under(path, prefix),
{
    let c = child_of(prefix, d);
    assert(path.take(c.len() as int) =~= c);
    assert forall|k: int| 0 <= k < prefix.len() implies path.take(prefix.len() as int)[k]
        == prefix[k] by {
        assert(path[k] == path.take(c.len() as int)[k]);
        assert(c[k] == prefix[k]);
    }
    assert(path.take(prefix.len() as int) =~= prefix);
}

proof fn lemma_walk_outside(
    paths: Seq<Seq<char>>,
    listing: spec_fn(Seq<char>) -> (Seq<Seq<char>>, Seq<usize>),
    prefix: Seq<char>,
    depth: nat,
    i: usize,
)
    requires
        listings_hold(paths, listing),
        i < paths.len(),
        !is_under(paths[i as int], prefix),
    ensures
        count_in(tree_walk(paths, listing, prefix, depth), i) == 0,
    decreases depth, 0nat,
{
    if depth > 0 {
        let (dirs, leaves) = listing(prefix);
        assert(level_listing(paths, prefix, listing(prefix).0, listing(prefix).1));
        lemma_subtrees_outside(paths, listing, prefix, dirs, (depth - 1) as nat, i);
        lemma_count_absent(leaves, i);
        lemma_count_concat(subtree_walks(paths, listing, prefix, dirs, (depth - 1) as nat), leaves, i);
    }
}

proof fn lemma_subtrees_outside(
    paths: Seq<Seq<char>>,
    listing: spec_fn(Seq<char>) -> (Seq<Seq<char>>, Seq<usize>),
    prefix: Seq<char>,
    dirs: Seq<Seq<char>>,
    depth: nat,
    i: usize,
)
    requires
        listings_hold(paths, listing),
        i < paths.len(),
        !is_under(paths[i as int], prefix),
    ensures
        count_in(subtree_walks(paths, listing, prefix, dirs, depth), i) == 0,
    decreases depth, dirs.len() + 1,
{
    if dirs.len() > 0 {
        lemma_subtrees_outside(paths, listing, prefix, dirs.drop_last(), depth, i);
        if is_under(paths[i as int], child_of(prefix, dirs.last())) {
            lemma_under_child(paths[i as int], prefix, dirs.last());
        }
        lemma_walk_outside(paths, listing, child_of(prefix, dirs.last()), depth, i);
        lemma_count_concat(
            subtree_walks(paths, listing, prefix, dirs.drop_last(), depth),
            tree_walk(paths, listing, child_of(prefix, dirs.last()), depth),
            i,
        );
    }
}

proof fn lemma_subtrees_once(
    paths: Seq<Seq<char>>,
    listing: spec_fn(Seq<char>) -> (Seq<Seq<char>>, Seq<usize>),
    prefix: Seq<char>,
    dirs: Seq<Seq<char>>,
    depth: nat,
    i: usize,
    target: Seq<char>,
)
    requires
        forall|a: int, b: int| 0 <= a < b < dirs.len() ==> dirs[a] != dirs[b],
        count_in(tree_walk(paths, listing, child_of(prefix, target), depth), i) == 1,
        forall|k: int|
            0 <= k < dirs.len() && dirs[k] != target ==> count_in(
                tree_walk(paths, listing, child_of(prefix, #[trigger] dirs[k]), depth),
                i,
            ) == 0,
    ensures
        count_in(subtree_walks(paths, listing, prefix, dirs, depth), i) == if dirs.contains(
            target,
        ) {
            1nat
        } else {
            0nat
        },
    decreases dirs.len(),
{
    if dirs.len() == 0 {
    } else {
        let r = dirs.drop_last();
        assert forall|a: int, b: int| 0 <= a < b < r.len() implies r[a] != r[b] by {
            assert(r[a] == dirs[a] && r[b] == dirs[b]);
        }
        assert forall|k: int| 0 <= k < r.len() && r[k] != target implies count_in(
            tree_walk(paths, listing, child_of(prefix, #[trigger] r[k]), depth),
            i,
        ) == 0 by {
            assert(r[k] == dirs[k]);
        }
        lemma_subtrees_once(paths, listing, prefix, r, depth, i, target);
        lemma_count_concat(
            subtree_walks(paths, listing, prefix, r, depth),
            tree_walk(paths, listing, child_of(prefix, dirs.last()), depth),
            i,
        );
        assert(dirs.last() == dirs[dirs.len() - 1]);
        if dirs.last() == target {
            assert forall|k: int| 0 <= k < r.len() implies r[k] != target by {
                assert(r[k] == dirs[k]);
            }
            assert(dirs.contains(target));
        } else {
            if dirs.contains(target) {
                let k = choose|k: int| 0 <= k < dirs.len() && dirs[k] == target;
                assert(r[k] == target);
            }
            if r.contains(target) {
                let k = choose|k: int| 0 <= k < r.len() && r[k] == target;
                assert(dirs[k] == target);
            }
        }
    }
}

proof fn lemma_walk_once(
    paths: Seq<Seq<char>>,
    listing: spec_fn(Seq<char>) -> (Seq<Seq<char>>, Seq<usize>),
    prefix: Seq<char>,
    depth: nat,
    i: usize,
)
    requires
        listings_hold(paths, listing),
        i < paths.len(),
        is_under(paths[i as int], prefix),
        paths[i as int].last() != '/',
        depth > paths[i as int].len() - prefix.len(),
    ensures
        count_in(tree_walk(paths, listing, prefix, depth), i) == 1,
    decreases depth,
{
    let p = paths[i as int];
    let (dirs, leaves) = listing(prefix);
    assert(level_listing(paths, prefix, listing(prefix).0, listing(prefix).1));
    let sub = subtree_walks(paths, listing, prefix, dirs, (depth - 1) as nat);
    lemma_count_concat(sub, leaves, i);
    assert forall|a: int, b: int| 0 <= a < b < dirs.len() implies dirs[a] != dirs[b] by {
        lemma_seq_lt_irreflexive(dirs[a]);
    }
    if is_leaf_entry(p, prefix) {
        lemma_count_unique(leaves, i);
        assert forall|k: int| 0 <= k < dirs.len() implies !is_under(
            p,
            child_of(prefix, #[trigger] dirs[k]),
        ) by {
            assert(dirs.contains(dirs[k]));
            lemma_listed_dir_plain(paths, prefix, dirs[k]);
            if is_under(p, child_of(prefix, dirs[k])) {
                lemma_single_branch(p, prefix, dirs[k]);
            }
        }
        lemma_subtrees_none(paths, listing, prefix, dirs, (depth - 1) as nat, i);
    } else {
        lemma_count_absent(leaves, i);
        lemma_first_index_bounds(entry_rest(p, prefix), '/');
        assert(is_dir_entry(p, prefix));
        let target = dir_name_of(p, prefix);
        assert(dir_name_of(paths[i as int], prefix) == target);
        assert(has_dir_named(paths, prefix, paths.len() as int, target));
        assert(dirs.contains(target));
        lemma_dir_entry_descends(p, prefix);
        let c = child_of(prefix, target);
        if p.len() == c.len() {
            assert(p.take(c.len() as int) =~= p);
            assert(p.last() == c.last());
        }
        lemma_walk_once(paths, listing, c, (depth - 1) as nat, i);
        assert forall|k: int|
            0 <= k < dirs.len() && dirs[k] != target implies count_in(
                tree_walk(paths, listing, child_of(prefix, #[trigger] dirs[k]), (depth - 1) as nat),
                i,
            ) == 0 by {
            assert(dirs.contains(dirs[k]));
            lemma_listed_dir_plain(paths, prefix, dirs[k]);
            if is_under(p, child_of(prefix, dirs[k])) {
                lemma_single_branch(p, prefix, dirs[k]);
            }
            lemma_walk_outside(paths, listing, child_of(prefix, dirs[k]), (depth - 1) as nat, i);
        }
        lemma_subtrees_once(paths, listing, prefix, dirs, (depth - 1) as nat, i, target);
    }
}

proof fn lemma_subtrees_none(
    paths: Seq<Seq<char>>,
    listing: spec_fn(Seq<char>) -> (Seq<Seq<char>>, Seq<usize>),
    prefix: Seq<char>,
    dirs: Seq<Seq<char>>,
    depth: nat,
    i: usize,
)
    requires
        listings_hold(paths, listing),
        i < paths.len(),
        forall|k: int| 0 <= k < dirs.len() ==> !is_under(paths[i as int], child_of(prefix, #[trigger] dirs[k])),
    ensures
        count_in(subtree_walks(paths, listing, prefix, dirs, depth), i) == 0,
    decreases dirs.len(),
{
    if dirs.len() > 0 {
        let r = dirs.drop_last();
        assert forall|k: int| 0 <= k < r.len() implies !is_under(paths[i as int], child_of(prefix, #[trigger] r[k])) by {
            assert(r[k] == dirs[k]);
        }
        lemma_subtrees_none(paths, listing, prefix, r, depth, i);
        assert(dirs.last() == dirs[dirs.len() - 1]);
        lemma_walk_outside(paths, listing, child_of(prefix, dirs.last()), depth, i);
        lemma_count_concat(
            subtree_walks(paths, listing, prefix, r, depth),
            tree_walk(paths, listing, child_of(prefix, dirs.last()), depth),
            i,
        );
    }
}

/// A path that ends in `/` is never listed as a file at any level.
proof fn lemma_walk_never(
    paths: Seq<Seq<char>>,
    listing: spec_fn(Seq<char>) -> (Seq<Seq<char>>, Seq<usize>),
    prefix: Seq<char>,
    depth: nat,
    i: usize,
)
    requires
        listings_hold(paths, listing),
        i < paths.len(),
        paths[i as int].len() > 0,
        paths[i as int].last() == '/',
    ensures
        count_in(tree_walk(paths, listing, prefix, depth), i) == 0,
    decreases depth, 0nat,
{
    if depth > 0 {
        let p = paths[i as int];
        let (dirs, leaves) = listing(prefix);
        assert(level_listing(paths, prefix, listing(prefix).0, listing(prefix).1));
        if is_under(p, prefix) {
            let rest = entry_rest(p, prefix);
            lemma_first_index_bounds(rest, '/');
            assert(rest[rest.len() - 1] == p[p.len() - 1]);
            assert(!is_leaf_entry(p, prefix));
        }
        lemma_count_absent(leaves, i);
        lemma_subtrees_never(paths, listing, prefix, dirs, (depth - 1) as nat, i);
        lemma_count_concat(subtree_walks(paths, listing, prefix, dirs, (depth - 1) as nat), leaves, i);
    }
}

proof fn lemma_subtrees_never(
    paths: Seq<Seq<char>>,
    listing: spec_fn(Seq<char>) -> (Seq<Seq<char>>, Seq<usize>),
    prefix: Seq<char>,
    dirs: Seq<Seq<char>>,
    depth: nat,
    i: usize,
)
    requires
        listings_hold(paths, listing),
        i < paths.len(),
        paths[i as int].len() > 0,
        paths[i as int].last() == '/',
    ensures
        count_in(subtree_walks(paths, listing, prefix, dirs, depth), i) == 0,
    decreases depth, dirs.len() + 1,
{
    if dirs.len() > 0 {
        lemma_subtrees_never(paths, listing, prefix, dirs.drop_last(), depth, i);
        lemma_walk_never(paths, listing, child_of(prefix, dirs.last()), depth, i);
        lemma_count_concat(
            subtree_walks(paths, listing, prefix, dirs.drop_last(), depth),
            tree_walk(paths, listing, child_of(prefix, dirs.last()), depth),
            i,
        );
    }
}

/// Drawing the whole tree lists every file exactly once and nothing else:
/// when every level is listed as `collect_tree_entries` lists it, a path
/// that is not empty and does not end in `/` appears once in the walk from
/// the root, given enough levels (more than its length), and an empty path
/// or one that ends in `/` never appears, at any depth.
pub proof fn lemma_tree_lists_each_file_once(
    paths: Seq<Seq<char>>,
    listing: spec_fn(Seq<char>) -> (Seq<Seq<char>>, Seq<usize>),
    i: usize,
    depth: nat,
)
    requires
        listings_hold(paths, listing),
        i < paths.len(),
    ensures
        paths[i as int].len() > 0 && paths[i as int].last() != '/' && depth > paths[i as int].len()
            ==> count_in(tree_walk(paths, listing, Seq::empty(), depth), i) == 1,
        paths[i as int].len() == 0 || paths[i as int].last() == '/' ==> count_in(
            tree_walk(paths, listing, Seq::empty(), depth),
            i,
        ) == 0,
{
    let p = paths[i as int];
    if p.len() == 0 {
        lemma_walk_outside(paths, listing, Seq::empty(), depth, i);
    } else if p.last() == '/' {
        lemma_walk_never(paths, listing, Seq::empty(), depth, i);
    } else if depth > p.len() {
        assert(p.take(0) =~= Seq::<char>::empty());
        lemma_walk_once(paths, listing, Seq::empty(), depth, i);
    }
}

} // verus!
