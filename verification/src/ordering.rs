//! Stable sorting by string keys, expressed as the order of indices into the
//! sorted collection.
use vstd::prelude::*;

use crate::text::{chars_equal, chars_less, seq_lt, lemma_seq_lt_transitive, lemma_seq_lt_total, lemma_seq_lt_irreflexive, lemma_seq_lt_asymmetric};

verus! {

/// `p` lists every index below `n` exactly once.
pub open spec fn is_index_permutation(p: Seq<usize>, n: nat) -> bool {
    &&& p.len() == n
    &&& forall|k: int| 0 <= k < p.len() ==> #[trigger] p[k] < n
    &&& forall|a: int, b: int| 0 <= a < b < p.len() ==> p[a] != p[b]
}

/// Index `i` comes before index `j` when ordering by the primary key, then by
/// the secondary key, then by position: the order of a stable sort by the
/// pair of keys.
pub open spec fn key_before(
    primary: Seq<Seq<char>>,
    secondary: Seq<Seq<char>>,
    i: int,
    j: int,
) -> bool {
    ||| seq_lt(primary[i], primary[j])
    ||| (primary[i] == primary[j] && seq_lt(secondary[i], secondary[j]))
    ||| (primary[i] == primary[j] && secondary[i] == secondary[j] && i < j)
}

/// `p` lists the indices in the order of a stable sort by the pair of keys.
pub open spec fn sorted_by_keys(
    primary: Seq<Seq<char>>,
    secondary: Seq<Seq<char>>,
    p: Seq<usize>,
) -> bool {
    forall|a: int, b: int|
        0 <= a < b < p.len() ==> key_before(primary, secondary, #[trigger] p[a] as int, #[trigger] p[b] as int)
}

/// The character sequences of a sequence of character vectors.
pub open spec fn views_of(keys: Seq<Vec<char>>) -> Seq<Seq<char>> {
    keys.map_values(|v: Vec<char>| v@)
}

pub proof fn lemma_key_before_transitive(
    primary: Seq<Seq<char>>,
    secondary: Seq<Seq<char>>,
    i: int,
    j: int,
    k: int,
)
    requires
        key_before(primary, secondary, i, j),
        key_before(primary, secondary, j, k),
    ensures
        key_before(primary, secondary, i, k),
{
    if seq_lt(primary[i], primary[j]) && seq_lt(primary[j], primary[k]) {
        lemma_seq_lt_transitive(primary[i], primary[j], primary[k]);
    }
    if seq_lt(secondary[i], secondary[j]) && seq_lt(secondary[j], secondary[k]) {
        lemma_seq_lt_transitive(secondary[i], secondary[j], secondary[k]);
    }
}

pub proof fn lemma_key_before_total(
    primary: Seq<Seq<char>>,
    secondary: Seq<Seq<char>>,
    i: int,
    j: int,
)
    requires
        i != j,
    ensures
        key_before(primary, secondary, i, j) || key_before(primary, secondary, j, i),
{
    lemma_seq_lt_total(primary[i], primary[j]);
    lemma_seq_lt_total(secondary[i], secondary[j]);
}

pub proof fn lemma_key_before_asymmetric(
    primary: Seq<Seq<char>>,
    secondary: Seq<Seq<char>>,
    i: int,
    j: int,
)
    requires
        key_before(primary, secondary, i, j),
    ensures
        !key_before(primary, secondary, j, i),
        i != j,
{
    lemma_seq_lt_irreflexive(primary[i]);
    lemma_seq_lt_irreflexive(secondary[i]);
    if seq_lt(primary[i], primary[j]) {
        lemma_seq_lt_asymmetric(primary[i], primary[j]);
    }
    if seq_lt(secondary[i], secondary[j]) {
        lemma_seq_lt_asymmetric(secondary[i], secondary[j]);
    }
}

/// Whether index `i` comes before index `j` (see `key_before`).
fn index_before(primary: &Vec<Vec<char>>, secondary: &Vec<Vec<char>>, i: usize, j: usize) -> (res:
    bool)
    requires
        i < primary.len(),
        j < primary.len(),
        primary.len() == secondary.len(),
    ensures
        res == key_before(views_of(primary@), views_of(secondary@), i as int, j as int),
{
    let ghost p = views_of(primary@);
    let ghost s = views_of(secondary@);
    assert(p[i as int] == primary@[i as int]@);
    assert(p[j as int] == primary@[j as int]@);
    assert(s[i as int] == secondary@[i as int]@);
    assert(s[j as int] == secondary@[j as int]@);
    if chars_less(&primary[i], &primary[j]) {
        return true;
    }
    if !chars_equal(&primary[i], &primary[j]) {
        return false;
    }
    if chars_less(&secondary[i], &secondary[j]) {
        return true;
    }
    if !chars_equal(&secondary[i], &secondary[j]) {
        return false;
    }
    i < j
}

/// Inserts index `i`, larger than every index already in `out`, at its place
/// in the order `key_before`.
pub fn insert_in_order(
    out: &mut Vec<usize>,
    primary: &Vec<Vec<char>>,
    secondary: &Vec<Vec<char>>,
    i: usize,
)
    requires
        i < primary.len(),
        primary.len() == secondary.len(),
        forall|k: int| 0 <= k < old(out)@.len() ==> #[trigger] old(out)@[k] < i,
        forall|a: int, b: int| 0 <= a < b < old(out)@.len() ==> old(out)@[a] != old(out)@[b],
        sorted_by_keys(views_of(primary@), views_of(secondary@), old(out)@),
    ensures
        final(out)@.len() == old(out)@.len() + 1,
        forall|x: usize| #[trigger] final(out)@.contains(x) <==> (old(out)@.contains(x) || x == i),
        forall|k: int| 0 <= k < final(out)@.len() ==> #[trigger] final(out)@[k] <= i,
        forall|a: int, b: int| 0 <= a < b < final(out)@.len() ==> final(out)@[a] != final(out)@[b],
        sorted_by_keys(views_of(primary@), views_of(secondary@), final(out)@),
{
    let ghost p = views_of(primary@);
    let ghost s = views_of(secondary@);
    let mut pos: usize = 0;
    while pos < out.len() && !index_before(primary, secondary, i, out[pos])
        invariant
            p == views_of(primary@),
            s == views_of(secondary@),
            i < primary.len(),
            primary.len() == secondary.len(),
            forall|k: int| 0 <= k < out@.len() ==> #[trigger] out@[k] < i,
            pos <= out.len(),
            forall|k: int| 0 <= k < pos ==> key_before(p, s, #[trigger] out@[k] as int, i as int),
        decreases out.len() - pos,
    {
        proof {
            lemma_key_before_total(p, s, i as int, out@[pos as int] as int);
        }
        pos = pos + 1;
    }
    let ghost old_out = out@;
    proof {
        if pos < old_out.len() {
            assert forall|k: int| pos <= k < old_out.len() implies key_before(
                p,
                s,
                i as int,
                #[trigger] old_out[k] as int,
            ) by {
                if k > pos {
                    lemma_key_before_transitive(
                        p,
                        s,
                        i as int,
                        old_out[pos as int] as int,
                        old_out[k] as int,
                    );
                }
            }
        }
    }
    out.insert(pos, i);
    proof {
        assert(out@ =~= old_out.take(pos as int).push(i).add(old_out.skip(pos as int)));
        assert forall|a: int, b: int| 0 <= a < b < out@.len() implies key_before(
            p,
            s,
            #[trigger] out@[a] as int,
            #[trigger] out@[b] as int,
        ) by {
            if a < pos && b < pos {
                assert(out@[a] == old_out[a] && out@[b] == old_out[b]);
            } else if a < pos && b == pos {
                assert(out@[a] == old_out[a]);
            } else if a < pos {
                assert(out@[a] == old_out[a] && out@[b] == old_out[b - 1]);
                lemma_key_before_transitive(p, s, old_out[a] as int, i as int, old_out[b - 1] as int);
            } else if a == pos {
                assert(out@[b] == old_out[b - 1]);
            } else {
                assert(out@[a] == old_out[a - 1] && out@[b] == old_out[b - 1]);
            }
        }
        assert forall|k: int| 0 <= k < out@.len() implies #[trigger] out@[k] <= i by {
            if k < pos {
                assert(out@[k] == old_out[k]);
            } else if k > pos {
                assert(out@[k] == old_out[k - 1]);
            }
        }
        assert forall|a: int, b: int| 0 <= a < b < out@.len() implies out@[a] != out@[b] by {
            if a < pos && b < pos {
                assert(out@[a] == old_out[a] && out@[b] == old_out[b]);
            } else if a < pos && b == pos {
                assert(out@[a] == old_out[a]);
            } else if a < pos {
                assert(out@[a] == old_out[a] && out@[b] == old_out[b - 1]);
            } else if a == pos {
                assert(out@[b] == old_out[b - 1]);
            } else {
                assert(out@[a] == old_out[a - 1] && out@[b] == old_out[b - 1]);
            }
        }
        assert forall|x: usize| #[trigger] out@.contains(x) <==> (old_out.contains(x) || x == i) by {
            if out@.contains(x) {
                let k = choose|k: int| 0 <= k < out@.len() && out@[k] == x;
                if k < pos {
                    assert(old_out[k] == x);
                } else if k > pos {
                    assert(old_out[k - 1] == x);
                }
            }
            if old_out.contains(x) {
                let k = choose|k: int| 0 <= k < old_out.len() && old_out[k] == x;
                if k < pos {
                    assert(out@[k] == x);
                } else {
                    assert(out@[k + 1] == x);
                }
            }
            if x == i {
                assert(out@[pos as int] == x);
            }
        }
    }
}

/// The indices of the keys in the order of a stable sort by the pair
/// (`primary`, `secondary`): by the primary key, then by the secondary key,
/// then by position.
pub fn stable_order(primary: &Vec<Vec<char>>, secondary: &Vec<Vec<char>>) -> (res: Vec<usize>)
    requires
        primary.len() == secondary.len(),
    ensures
        is_index_permutation(res@, primary.len() as nat),
        sorted_by_keys(views_of(primary@), views_of(secondary@), res@),
{
    let n = primary.len();
    let mut out: Vec<usize> = Vec::new();
    let mut i: usize = 0;
    while i < n
        invariant
            n == primary.len() == secondary.len(),
            i <= n,
            is_index_permutation(out@, i as nat),
            sorted_by_keys(views_of(primary@), views_of(secondary@), out@),
        decreases n - i,
    {
        insert_in_order(&mut out, primary, secondary, i);
        proof {
            assert forall|k: int| 0 <= k < out@.len() implies #[trigger] out@[k] < i + 1 by {}
        }
        i = i + 1;
    }
    out
}

/// `p` lists the indices in the order of a stable sort by `keys`.
pub open spec fn stably_sorted_by(keys: Seq<Seq<char>>, p: Seq<usize>) -> bool {
    forall|a: int, b: int|
        0 <= a < b < p.len() ==> {
            let i = #[trigger] p[a] as int;
            let j = #[trigger] p[b] as int;
            seq_lt(keys[i], keys[j]) || (keys[i] == keys[j] && i < j)
        }
}

/// A vector of `n` empty keys.
pub fn empty_keys(n: usize) -> (res: Vec<Vec<char>>)
    ensures
        res.len() == n,
        forall|k: int| 0 <= k < n ==> (#[trigger] res@[k])@.len() == 0,
{
    let mut out: Vec<Vec<char>> = Vec::new();
    let mut i: usize = 0;
    while i < n
        invariant
            i <= n,
            out.len() == i,
            forall|k: int| 0 <= k < i ==> (#[trigger] out@[k])@.len() == 0,
        decreases n - i,
    {
        out.push(Vec::new());
        i = i + 1;
    }
    out
}

/// With all secondary keys empty, the pair order is the stable order by the
/// primary keys.
pub proof fn lemma_sorted_by_primary(p: Seq<Seq<char>>, s: Seq<Seq<char>>, order: Seq<usize>)
    requires
        sorted_by_keys(p, s, order),
        forall|k: int| 0 <= k < s.len() ==> (#[trigger] s[k]).len() == 0,
        forall|k: int| 0 <= k < order.len() ==> #[trigger] order[k] < s.len(),
    ensures
        stably_sorted_by(p, order),
{
    assert forall|a: int, b: int| 0 <= a < b < order.len() implies {
        let i = #[trigger] order[a] as int;
        let j = #[trigger] order[b] as int;
        seq_lt(p[i], p[j]) || (p[i] == p[j] && i < j)
    } by {
        let i = order[a] as int;
        let j = order[b] as int;
        assert(key_before(p, s, i, j));
        assert(s[i] =~= s[j]);
        lemma_seq_lt_irreflexive(s[i]);
    }
}

/// The indices of the keys in the order of a stable sort by the keys.
pub fn stable_order_by(keys: &Vec<Vec<char>>) -> (res: Vec<usize>)
    ensures
        is_index_permutation(res@, keys.len() as nat),
        stably_sorted_by(views_of(keys@), res@),
{
    let empties = empty_keys(keys.len());
    let res = stable_order(keys, &empties);
    proof {
        lemma_sorted_by_primary(views_of(keys@), views_of(empties@), res@);
    }
    res
}

/// Inserts `d` into a strictly increasing vector of keys, unless it is there.
pub fn insert_unique_sorted(set: &mut Vec<Vec<char>>, d: Vec<char>)
    requires
        strictly_increasing(views_of(old(set)@)),
    ensures
        strictly_increasing(views_of(final(set)@)),
        forall|x: Seq<char>| #[trigger] views_of(final(set)@).contains(x) <==> (views_of(old(set)@).contains(x) || x == d@),
{
    let ghost old_v = views_of(set@);
    let mut pos: usize = 0;
    while pos < set.len() && chars_less(&set[pos], &d)
        invariant
            old_v == views_of(set@),
            strictly_increasing(old_v),
            pos <= set.len(),
            forall|k: int| 0 <= k < pos ==> seq_lt(#[trigger] old_v[k], d@),
        decreases set.len() - pos,
    {
        assert(old_v[pos as int] == set@[pos as int]@);
        pos = pos + 1;
    }
    if pos < set.len() {
        assert(old_v[pos as int] == set@[pos as int]@);
        if chars_equal(&set[pos], &d) {
            assert(old_v.contains(d@));
            return;
        }
        proof {
            lemma_seq_lt_total(d@, old_v[pos as int]);
        }
    }
    proof {
        if pos < old_v.len() {
            assert forall|k: int| pos <= k < old_v.len() implies seq_lt(d@, #[trigger] old_v[k]) by {
                if k > pos {
                    lemma_seq_lt_transitive(d@, old_v[pos as int], old_v[k]);
                }
            }
        }
    }
    set.insert(pos, d);
    proof {
        let nv = views_of(set@);
        assert(nv =~= old_v.take(pos as int).push(d@).add(old_v.skip(pos as int)));
        assert forall|a: int, b: int| 0 <= a < b < nv.len() implies seq_lt(#[trigger] nv[a], #[trigger] nv[b]) by {
            if a < pos && b < pos {
            } else if a < pos && b == pos {
            } else if a < pos {
                lemma_seq_lt_transitive(old_v[a], d@, old_v[b - 1]);
            } else if a == pos {
            } else {
            }
        }
        assert forall|x: Seq<char>| #[trigger] nv.contains(x) <==> (old_v.contains(x) || x == d@) by {
            if nv.contains(x) {
                let k = choose|k: int| 0 <= k < nv.len() && nv[k] == x;
                if k < pos {
                    assert(old_v[k] == x);
                } else if k > pos {
                    assert(old_v[k - 1] == x);
                }
            }
            if old_v.contains(x) {
                let k = choose|k: int| 0 <= k < old_v.len() && old_v[k] == x;
                if k < pos {
                    assert(nv[k] == x);
                } else {
                    assert(nv[k + 1] == x);
                }
            }
            if x == d@ {
                assert(nv[pos as int] == x);
            }
        }
    }
}

/// Each key comes strictly before the next.
pub open spec fn strictly_increasing(keys: Seq<Seq<char>>) -> bool {
    forall|a: int, b: int| 0 <= a < b < keys.len() ==> seq_lt(#[trigger] keys[a], #[trigger] keys[b])
}

/// An index permutation of `n` lists every index below `n`.
pub proof fn lemma_permutation_covers(p: Seq<usize>, n: nat, x: usize)
    requires
        is_index_permutation(p, n),
        x < n,
    ensures
        p.contains(x),
{
    broadcast use vstd::seq_lib::seq_to_set_is_finite;

    let q = p.map_values(|v: usize| v as int);
    assert forall|a: int, b: int| 0 <= a < q.len() && 0 <= b < q.len() && a != b implies q[a]
        != q[b] by {
        if a < b {
            assert(p[a] != p[b]);
        } else {
            assert(p[b] != p[a]);
        }
    }
    assert(q.no_duplicates());
    q.unique_seq_to_set();
    vstd::set_lib::lemma_int_range(0, n as int);
    let qs = q.to_set();
    let r = vstd::set_lib::set_int_range(0, n as int);
    assert forall|v: int| qs.contains(v) implies r.contains(v) by {
        let k = choose|k: int| 0 <= k < q.len() && q[k] == v;
        assert(p[k] < n);
    }
    vstd::set_lib::lemma_subset_equality(qs, r);
    assert(r.contains(x as int));
    assert(qs.contains(x as int));
    let k = choose|k: int| 0 <= k < q.len() && q[k] == x as int;
    assert(p[k] == x);
}

proof fn lemma_sorted_prefix_equal(
    primary: Seq<Seq<char>>,
    secondary: Seq<Seq<char>>,
    p: Seq<usize>,
    q: Seq<usize>,
    n: nat,
    a: int,
)
    requires
        is_index_permutation(p, n),
        is_index_permutation(q, n),
        sorted_by_keys(primary, secondary, p),
        sorted_by_keys(primary, secondary, q),
        0 <= a <= n,
    ensures
        forall|j: int| 0 <= j < a ==> p[j] == q[j],
    decreases a,
{
    if a > 0 {
        lemma_sorted_prefix_equal(primary, secondary, p, q, n, a - 1);
        let i = a - 1;
        let x = p[i];
        let y = q[i];
        if x != y {
            lemma_permutation_covers(q, n, x);
            lemma_permutation_covers(p, n, y);
            let b = choose|b: int| 0 <= b < q.len() && q[b] == x;
            let c = choose|c: int| 0 <= c < p.len() && p[c] == y;
            if b < i {
                assert(p[b] == q[b]);
                assert(p[b] == p[i]);
            }
            if c < i {
                assert(p[c] == q[c]);
                assert(q[c] == q[i]);
            }
            assert(b > i);
            assert(c > i);
            assert(key_before(primary, secondary, y as int, x as int));
            assert(key_before(primary, secondary, x as int, y as int));
            lemma_key_before_asymmetric(primary, secondary, x as int, y as int);
        }
    }
}

/// Two index permutations sorted by the same keys are the same: the stable
/// order is unique.
pub proof fn lemma_sorted_order_unique(
    primary: Seq<Seq<char>>,
    secondary: Seq<Seq<char>>,
    p: Seq<usize>,
    q: Seq<usize>,
    n: nat,
)
    requires
        is_index_permutation(p, n),
        is_index_permutation(q, n),
        sorted_by_keys(primary, secondary, p),
        sorted_by_keys(primary, secondary, q),
    ensures
        p == q,
{
    lemma_sorted_prefix_equal(primary, secondary, p, q, n, n as int);
    assert(p =~= q);
}

} // verus!
