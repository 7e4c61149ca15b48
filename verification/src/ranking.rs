//! Stable ordering of rows by a list of sort values.

use vstd::prelude::*;
use crate::order;
use crate::text;

verus! {

/// One value that rows are ordered by. A missing value comes first, then
/// numbers, then texts.
pub enum SortValue {
    Missing,
    Number(i128),
    Text(String),
}

/// The mathematical reading of a `SortValue`.
pub enum SortView {
    Missing,
    Number(int),
    Text(Seq<char>),
}

impl View for SortValue {
    type V = SortView;

    open spec fn view(&self) -> SortView {
        match self {
            SortValue::Missing => SortView::Missing,
            SortValue::Number(n) => SortView::Number(*n as int),
            SortValue::Text(t) => SortView::Text(t@),
        }
    }
}

pub open spec fn value_before(a: SortView, b: SortView) -> bool {
    match (a, b) {
        (SortView::Missing, SortView::Missing) => false,
        (SortView::Missing, _) => true,
        (_, SortView::Missing) => false,
        (SortView::Number(x), SortView::Number(y)) => x < y,
        (SortView::Number(_), SortView::Text(_)) => true,
        (SortView::Text(_), SortView::Number(_)) => false,
        (SortView::Text(x), SortView::Text(y)) => order::before(x, y),
    }
}

/// `a` comes before `b` when the values from index `i` on are compared one by
/// one; at the indices where `descending` holds, the greater value is first.
pub open spec fn key_before(
    a: Seq<SortView>,
    b: Seq<SortView>,
    descending: Seq<bool>,
    i: int,
) -> bool
    decreases descending.len() - i,
{
    if i < 0 || i >= descending.len() {
        false
    } else if a[i] == b[i] {
        key_before(a, b, descending, i + 1)
    } else if descending[i] {
        value_before(b[i], a[i])
    } else {
        value_before(a[i], b[i])
    }
}

/// Row `p` comes before row `q`: by their keys, and among rows with equal keys
/// by their positions.
pub open spec fn comes_first(
    keys: Seq<Seq<SortView>>,
    descending: Seq<bool>,
    p: int,
    q: int,
) -> bool {
    ||| key_before(keys[p], keys[q], descending, 0)
    ||| !key_before(keys[q], keys[p], descending, 0) && p < q
}

pub open spec fn row_order(
    keys: Seq<Seq<SortView>>,
    descending: Seq<bool>,
) -> spec_fn(int, int) -> bool {
    |p: int, q: int| comes_first(keys, descending, p, q)
}

/// `r` lists the positions `0, 1, ..` of all `keys` in their stable order.
pub open spec fn is_ranking_of(
    r: Seq<int>,
    keys: Seq<Seq<SortView>>,
    descending: Seq<bool>,
) -> bool {
    &&& order::ascending_by(r, row_order(keys, descending))
    &&& forall|p: int| #[trigger] r.contains(p) <==> 0 <= p < keys.len()
}

/// The positions of all `keys` in their stable order.
pub open spec fn ranking(keys: Seq<Seq<SortView>>, descending: Seq<bool>) -> Seq<int> {
    choose|r: Seq<int>| is_ranking_of(r, keys, descending)
}

proof fn lemma_value_before(a: SortView, b: SortView, c: SortView)
    ensures
        !value_before(a, a),
        value_before(a, b) ==> !value_before(b, a),
        value_before(a, b) || value_before(b, a) || a == b,
        value_before(a, b) && value_before(b, c) ==> value_before(a, c),
{
    match (a, b) {
        (SortView::Text(x), SortView::Text(y)) => {
            order::lemma_before_irreflexive(x);
            order::lemma_before_asymmetric(x, y);
            order::lemma_before_total(x, y);
            if let SortView::Text(z) = c {
                if order::before(x, y) && order::before(y, z) {
                    order::lemma_before_transitive(x, y, z);
                }
            }
        },
        _ => {
            if let SortView::Text(x) = a {
                order::lemma_before_irreflexive(x);
            }
        },
    }
}

proof fn lemma_key_before(
    a: Seq<SortView>,
    b: Seq<SortView>,
    c: Seq<SortView>,
    descending: Seq<bool>,
    i: int,
)
    requires
        0 <= i <= descending.len(),
    ensures
        !key_before(a, a, descending, i),
        key_before(a, b, descending, i) ==> !key_before(b, a, descending, i),
        key_before(a, b, descending, i) && key_before(b, c, descending, i) ==> key_before(
            a,
            c,
            descending,
            i,
        ),
        !key_before(a, b, descending, i) && !key_before(b, a, descending, i) ==> (key_before(
            a,
            c,
            descending,
            i,
        ) == key_before(b, c, descending, i) && key_before(c, a, descending, i) == key_before(
            c,
            b,
            descending,
            i,
        )),
    decreases descending.len() - i,
{
    if i < descending.len() {
        lemma_key_before(a, b, c, descending, i + 1);
        lemma_value_before(a[i], b[i], c[i]);
        lemma_value_before(b[i], c[i], a[i]);
        lemma_value_before(c[i], b[i], a[i]);
        lemma_value_before(b[i], a[i], c[i]);
        lemma_value_before(a[i], c[i], b[i]);
    }
}

pub proof fn lemma_comes_first(
    keys: Seq<Seq<SortView>>,
    descending: Seq<bool>,
    p: int,
    q: int,
    r: int,
)
    ensures
        comes_first(keys, descending, p, q) ==> !comes_first(keys, descending, q, p),
        p != q ==> comes_first(keys, descending, p, q) || comes_first(keys, descending, q, p),
        comes_first(keys, descending, p, q) && comes_first(keys, descending, q, r) ==> comes_first(
            keys,
            descending,
            p,
            r,
        ),
{
    lemma_key_before(keys[p], keys[q], keys[r], descending, 0);
    lemma_key_before(keys[q], keys[r], keys[p], descending, 0);
    lemma_key_before(keys[p], keys[r], keys[q], descending, 0);
}

pub proof fn lemma_ranking_unique(r: Seq<int>, keys: Seq<Seq<SortView>>, descending: Seq<bool>)
    requires
        is_ranking_of(r, keys, descending),
    ensures
        r == ranking(keys, descending),
{
    let c = ranking(keys, descending);
    assert(is_ranking_of(c, keys, descending));
    let lt = row_order(keys, descending);
    assert forall|x: int, y: int| #[trigger] lt(x, y) implies !lt(y, x) by {
        lemma_comes_first(keys, descending, x, y, x);
    }
    assert forall|x: int| r.contains(x) <==> #[trigger] c.contains(x) by {
        assert(r.contains(x) <==> 0 <= x < keys.len());
    }
    order::lemma_ascending_unique(r, c, lt);
}

fn same_value(a: &SortValue, b: &SortValue) -> (r: bool)
    ensures
        r == (a@ == b@),
{
    match (a, b) {
        (SortValue::Missing, SortValue::Missing) => true,
        (SortValue::Number(x), SortValue::Number(y)) => *x == *y,
        (SortValue::Text(x), SortValue::Text(y)) => text::same(x.as_str(), y.as_str()),
        _ => false,
    }
}

fn less(a: &SortValue, b: &SortValue) -> (r: bool)
    ensures
        r == value_before(a@, b@),
{
    match (a, b) {
        (SortValue::Missing, SortValue::Missing) => false,
        (SortValue::Missing, _) => true,
        (_, SortValue::Missing) => false,
        (SortValue::Number(x), SortValue::Number(y)) => *x < *y,
        (SortValue::Number(_), SortValue::Text(_)) => true,
        (SortValue::Text(_), SortValue::Number(_)) => false,
        (SortValue::Text(x), SortValue::Text(y)) => order::comes_before(x.as_str(), y.as_str()),
    }
}

/// The views of one row's sort values.
pub open spec fn key_view(key: Seq<SortValue>) -> Seq<SortView> {
    key.map_values(|v: SortValue| v@)
}

/// The views of the sort values of all rows.
pub open spec fn keys_view(keys: Seq<Vec<SortValue>>) -> Seq<Seq<SortView>> {
    keys.map_values(|k: Vec<SortValue>| key_view(k@))
}

fn less_key(a: &Vec<SortValue>, b: &Vec<SortValue>, descending: &Vec<bool>) -> (r: bool)
    requires
        a@.len() == descending@.len(),
        b@.len() == descending@.len(),
    ensures
        r == key_before(key_view(a@), key_view(b@), descending@, 0),
{
    let ghost x = key_view(a@);
    let ghost y = key_view(b@);
    let mut i: usize = 0;
    while i < descending.len()
        invariant
            i <= descending@.len(),
            a@.len() == descending@.len(),
            b@.len() == descending@.len(),
            x == key_view(a@),
            y == key_view(b@),
            key_before(x, y, descending@, 0) == key_before(x, y, descending@, i as int),
        decreases descending@.len() - i,
    {
        if !same_value(&a[i], &b[i]) {
            return if descending[i] {
                less(&b[i], &a[i])
            } else {
                less(&a[i], &b[i])
            };
        }
        i = i + 1;
    }
    false
}

/// The positions as integers.
pub open spec fn positions(r: Seq<usize>) -> Seq<int> {
    r.map_values(|p: usize| p as int)
}

/// The positions of all `keys` in their stable order.
pub fn rank(keys: &Vec<Vec<SortValue>>, descending: &Vec<bool>) -> (r: Vec<usize>)
    requires
        forall|i: int| 0 <= i < keys@.len() ==> (#[trigger] keys@[i])@.len() == descending@.len(),
    ensures
        positions(r@) == ranking(keys_view(keys@), descending@),
        is_ranking_of(positions(r@), keys_view(keys@), descending@),
        forall|i: int| 0 <= i < r@.len() ==> (#[trigger] r@[i]) < keys@.len(),
{
    let ghost views = keys_view(keys@);
    let ghost lt = row_order(views, descending@);
    let mut r: Vec<usize> = Vec::new();
    let mut n: usize = 0;
    while n < keys.len()
        invariant
            n <= keys@.len(),
            views == keys_view(keys@),
            lt == row_order(views, descending@),
            forall|i: int|
                0 <= i < keys@.len() ==> (#[trigger] keys@[i])@.len() == descending@.len(),
            order::ascending_by(positions(r@), lt),
            forall|p: int| #[trigger] positions(r@).contains(p) <==> 0 <= p < n,
        decreases keys@.len() - n,
    {
        let at: usize = insertion_point(keys, descending, &r, n);
        let ghost before = positions(r@);
        proof {
            lemma_insert_position(before, views, descending@, n as int, at as int);
        }
        r.insert(at, n);
        assert(positions(r@) =~= before.insert(at as int, n as int));
        n = n + 1;
    }
    proof {
        lemma_ranking_unique(positions(r@), views, descending@);
        assert forall|i: int| 0 <= i < r@.len() implies (#[trigger] r@[i]) < keys@.len() by {
            assert(positions(r@)[i] == r@[i]);
            assert(positions(r@).contains(r@[i] as int));
        }
    }
    r
}

/// Where the next position `n` belongs among the ranked positions `r`.
fn insertion_point(
    keys: &Vec<Vec<SortValue>>,
    descending: &Vec<bool>,
    r: &Vec<usize>,
    n: usize,
) -> (at: usize)
    requires
        n < keys@.len(),
        forall|i: int| 0 <= i < keys@.len() ==> (#[trigger] keys@[i])@.len() == descending@.len(),
        order::ascending_by(positions(r@), row_order(keys_view(keys@), descending@)),
        forall|p: int| #[trigger] positions(r@).contains(p) <==> 0 <= p < n,
    ensures
        at <= r@.len(),
        forall|j: int|
            0 <= j < at ==> comes_first(
                keys_view(keys@),
                descending@,
                #[trigger] positions(r@)[j],
                n as int,
            ),
        forall|j: int|
            at <= j < r@.len() ==> comes_first(
                keys_view(keys@),
                descending@,
                n as int,
                #[trigger] positions(r@)[j],
            ),
{
    let ghost views = keys_view(keys@);
    let ghost placed = positions(r@);
    let mut low: usize = 0;
    let mut high: usize = r.len();
    while low < high
        invariant
            n < keys@.len(),
            forall|i: int|
                0 <= i < keys@.len() ==> (#[trigger] keys@[i])@.len() == descending@.len(),
            views == keys_view(keys@),
            placed == positions(r@),
            order::ascending_by(placed, row_order(views, descending@)),
            forall|p: int| #[trigger] placed.contains(p) <==> 0 <= p < n,
            low <= high <= r@.len(),
            forall|j: int|
                0 <= j < low ==> comes_first(views, descending@, #[trigger] placed[j], n as int),
            forall|j: int|
                high <= j < placed.len() ==> comes_first(
                    views,
                    descending@,
                    n as int,
                    #[trigger] placed[j],
                ),
        decreases high - low,
    {
        let mid: usize = low + (high - low) / 2;
        let p: usize = r[mid];
        let ghost lt = row_order(views, descending@);
        proof {
            assert(placed[mid as int] == p);
            assert(placed.contains(p as int));
        }
        if less_key(&keys[n], &keys[p], descending) {
            proof {
                assert forall|j: int| mid <= j < placed.len() implies comes_first(
                    views,
                    descending@,
                    n as int,
                    #[trigger] placed[j],
                ) by {
                    if j > mid {
                        assert(lt(placed[mid as int], placed[j]));
                        lemma_comes_first(views, descending@, n as int, p as int, placed[j]);
                    }
                }
            }
            high = mid;
        } else {
            proof {
                assert(comes_first(views, descending@, p as int, n as int));
                assert forall|j: int| 0 <= j < mid + 1 implies comes_first(
                    views,
                    descending@,
                    #[trigger] placed[j],
                    n as int,
                ) by {
                    if j < mid {
                        assert(lt(placed[j], placed[mid as int]));
                        lemma_comes_first(views, descending@, placed[j], p as int, n as int);
                    }
                }
            }
            low = mid + 1;
        }
    }
    low
}

// ---------------------------------------------------------------------------
// Every list of keys has a ranking
// ---------------------------------------------------------------------------
/// Where position `n` belongs among ranked positions.
proof fn lemma_point_exists(
    r: Seq<int>,
    keys: Seq<Seq<SortView>>,
    descending: Seq<bool>,
    n: int,
) -> (at: int)
    requires
        order::ascending_by(r, row_order(keys, descending)),
        !r.contains(n),
    ensures
        0 <= at <= r.len(),
        forall|j: int| 0 <= j < at ==> comes_first(keys, descending, #[trigger] r[j], n),
        forall|j: int| at <= j < r.len() ==> comes_first(keys, descending, n, #[trigger] r[j]),
    decreases r.len(),
{
    let lt = row_order(keys, descending);
    if r.len() == 0 {
        0
    } else {
        let last = r.len() - 1;
        assert(r[last] != n) by {
            if r[last] == n {
                assert(r.contains(n));
            }
        }
        lemma_comes_first(keys, descending, r[last], n, n);
        if comes_first(keys, descending, r[last], n) {
            assert forall|j: int| 0 <= j < r.len() implies comes_first(
                keys,
                descending,
                #[trigger] r[j],
                n,
            ) by {
                if j < last {
                    assert(lt(r[j], r[last]));
                    lemma_comes_first(keys, descending, r[j], r[last], n);
                }
            }
            r.len() as int
        } else {
            let rest = r.drop_last();
            assert(order::ascending_by(rest, lt)) by {
                assert forall|i: int, j: int| 0 <= i < j < rest.len() implies lt(
                    #[trigger] rest[i],
                    #[trigger] rest[j],
                ) by {
                    assert(lt(r[i], r[j]));
                }
            }
            assert(!rest.contains(n)) by {
                if rest.contains(n) {
                    let k = choose|k: int| 0 <= k < rest.len() && rest[k] == n;
                    assert(r[k] == n);
                }
            }
            let at = lemma_point_exists(rest, keys, descending, n);
            assert forall|j: int| 0 <= j < at implies comes_first(
                keys,
                descending,
                #[trigger] r[j],
                n,
            ) by {
                assert(rest[j] == r[j]);
            }
            assert forall|j: int| at <= j < r.len() implies comes_first(
                keys,
                descending,
                n,
                #[trigger] r[j],
            ) by {
                if j < last {
                    assert(rest[j] == r[j]);
                }
            }
            at
        }
    }
}

/// Inserting the next position keeps a ranking.
proof fn lemma_insert_position(
    r: Seq<int>,
    keys: Seq<Seq<SortView>>,
    descending: Seq<bool>,
    n: int,
    at: int,
)
    requires
        order::ascending_by(r, row_order(keys, descending)),
        forall|p: int| #[trigger] r.contains(p) <==> 0 <= p < n,
        n >= 0,
        0 <= at <= r.len(),
        forall|j: int| 0 <= j < at ==> comes_first(keys, descending, #[trigger] r[j], n),
        forall|j: int| at <= j < r.len() ==> comes_first(keys, descending, n, #[trigger] r[j]),
    ensures
        order::ascending_by(r.insert(at, n), row_order(keys, descending)),
        forall|p: int| #[trigger] r.insert(at, n).contains(p) <==> 0 <= p < n + 1,
{
    let lt = row_order(keys, descending);
    let after = r.insert(at, n);
    assert forall|i: int, j: int| 0 <= i < j < after.len() implies lt(
        #[trigger] after[i],
        #[trigger] after[j],
    ) by {
        if i < at && j < at {
            assert(lt(r[i], r[j]));
        } else if i < at && j > at {
            assert(lt(r[i], r[j - 1]));
        } else if i > at {
            assert(lt(r[i - 1], r[j - 1]));
        } else if i < at {
            assert(lt(r[i], n));
        } else {
            assert(lt(n, r[j - 1]));
        }
    }
    assert forall|p: int| #[trigger] after.contains(p) <==> 0 <= p < n + 1 by {
        if after.contains(p) {
            let k = choose|k: int| 0 <= k < after.len() && after[k] == p;
            if k < at {
                assert(r[k] == p);
                assert(r.contains(p));
            } else if k > at {
                assert(r[k - 1] == p);
                assert(r.contains(p));
            }
        }
        if 0 <= p < n {
            assert(r.contains(p));
            let k = choose|k: int| 0 <= k < r.len() && r[k] == p;
            if k < at {
                assert(after[k] == p);
            } else {
                assert(after[k + 1] == p);
            }
        }
        if p == n {
            assert(after[at] == p);
        }
    }
}

proof fn lemma_ranking_exists(keys: Seq<Seq<SortView>>, descending: Seq<bool>, n: nat) -> (r: Seq<
    int,
>)
    requires
        n <= keys.len(),
    ensures
        order::ascending_by(r, row_order(keys, descending)),
        forall|p: int| #[trigger] r.contains(p) <==> 0 <= p < n,
    decreases n,
{
    if n == 0 {
        Seq::empty()
    } else {
        let r = lemma_ranking_exists(keys, descending, (n - 1) as nat);
        let at = lemma_point_exists(r, keys, descending, n - 1);
        lemma_insert_position(r, keys, descending, n - 1, at);
        r.insert(at, n - 1)
    }
}

/// `ranking` is what its name says, on every list of keys.
pub proof fn lemma_ranking(keys: Seq<Seq<SortView>>, descending: Seq<bool>)
    ensures
        is_ranking_of(ranking(keys, descending), keys, descending),
{
    let r = lemma_ranking_exists(keys, descending, keys.len());
    assert(is_ranking_of(r, keys, descending));
}

/// No position stands twice in a ranking.
pub proof fn lemma_ranking_distinct(keys: Seq<Seq<SortView>>, descending: Seq<bool>)
    ensures
        ranking(keys, descending).no_duplicates(),
{
    lemma_ranking(keys, descending);
    let r = ranking(keys, descending);
    let lt = row_order(keys, descending);
    assert forall|i: int, j: int| 0 <= i < r.len() && 0 <= j < r.len() && i != j implies r[i]
        != r[j] by {
        lemma_comes_first(keys, descending, r[i], r[j], r[i]);
        if i < j {
            assert(lt(r[i], r[j]));
        } else {
            assert(lt(r[j], r[i]));
        }
    }
}

/// A ranking has as many positions as there are keys.
pub proof fn lemma_ranking_len(keys: Seq<Seq<SortView>>, descending: Seq<bool>)
    ensures
        ranking(keys, descending).len() == keys.len(),
{
    lemma_ranking(keys, descending);
    let r = ranking(keys, descending);
    lemma_ranking_distinct(keys, descending);
    r.unique_seq_to_set();
    assert(r.to_set() =~= vstd::set_lib::set_int_range(0, keys.len() as int)) by {
        assert forall|p: int| r.to_set().contains(p) <==> vstd::set_lib::set_int_range(
            0,
            keys.len() as int,
        ).contains(p) by {
            assert(r.contains(p) <==> 0 <= p < keys.len());
        }
    }
    vstd::set_lib::lemma_int_range(0, keys.len() as int);
}

/// Keys that are in order already stay where they are.
pub proof fn lemma_ranking_in_order(keys: Seq<Seq<SortView>>, descending: Seq<bool>)
    requires
        forall|i: int, j: int|
            0 <= i < j < keys.len() ==> !key_before(
                #[trigger] keys[j],
                #[trigger] keys[i],
                descending,
                0,
            ),
    ensures
        ranking(keys, descending) == Seq::new(keys.len(), |i: int| i),
{
    let id = Seq::new(keys.len(), |i: int| i);
    let lt = row_order(keys, descending);
    lemma_ranking(keys, descending);
    let r = ranking(keys, descending);
    assert forall|p: int| #[trigger] id.contains(p) <==> 0 <= p < keys.len() by {
        if 0 <= p < keys.len() {
            assert(id[p] == p);
        }
    }
    assert forall|x: int, y: int| #[trigger] lt(x, y) implies !lt(y, x) by {
        lemma_comes_first(keys, descending, x, y, x);
    }
    assert(order::same_members(r, id)) by {
        assert forall|p: int| r.contains(p) <==> #[trigger] id.contains(p) by {
            assert(r.contains(p) <==> 0 <= p < keys.len());
        }
    }
    order::lemma_ascending_unique(r, id, lt);
}

} // verus!
