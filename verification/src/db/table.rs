//! Reading and changing the rows of a table.

use vstd::prelude::*;
use crate::lists;
use crate::ranking;
use crate::ranking::{SortValue, SortView};
use crate::search;

verus! {

/// A condition on rows.
pub trait RowTest<R: View> {
    /// The condition.
    spec fn wanted(&self) -> spec_fn(R::V) -> bool;

    /// Whether the row meets the condition.
    fn test(&self, row: &R) -> (r: bool)
        ensures
            r == (self.wanted())(row@),
    ;
}

/// A change of rows.
pub trait RowChange<R: View> {
    /// What becomes of a row.
    spec fn changed(&self) -> spec_fn(R::V) -> R::V;

    /// Changes the row.
    fn apply(&self, row: &mut R)
        ensures
            final(row)@ == (self.changed())(old(row)@),
    ;
}

/// An order of rows.
pub trait RowKey<R: View> {
    /// The values by which rows are ordered.
    spec fn key(&self) -> spec_fn(R::V) -> Seq<SortView>;

    /// By which of the values the greater row comes first.
    spec fn directions(&self) -> Seq<bool>;

    /// The values by which the row is ordered.
    fn key_of(&self, row: &R) -> (r: Vec<SortValue>)
        ensures
            ranking::key_view(r@) == (self.key())(row@),
            r@.len() == self.directions().len(),
    ;

    /// By which of the values the greater row comes first.
    fn descending(&self) -> (r: Vec<bool>)
        ensures
            r@ == self.directions(),
    ;
}

/// A way to show rows.
pub trait RowDisplay<R: View, S: View> {
    /// What is shown of a row.
    spec fn shown(&self) -> spec_fn(R::V) -> S::V;

    /// Shows the row.
    fn show(&self, row: &R) -> (r: S)
        ensures
            r@ == (self.shown())(row@),
    ;
}

/// The views of the rows of a table.
pub open spec fn views<R: View>(rows: Seq<R>) -> Seq<R::V> {
    rows.map_values(|r: R| r@)
}

pub open spec fn opposite<V>(p: spec_fn(V) -> bool) -> spec_fn(V) -> bool {
    |v: V| !p(v)
}

/// The condition that every row meets.
pub open spec fn always<V>() -> spec_fn(V) -> bool {
    |v: V| true
}

/// The condition that every row meets.
pub struct EveryRow {}

impl<R: View> RowTest<R> for EveryRow {
    open spec fn wanted(&self) -> spec_fn(R::V) -> bool {
        always()
    }

    fn test(&self, row: &R) -> (r: bool) {
        true
    }
}

/// The rows that do not meet the condition.
pub open spec fn without<V>(rows: Seq<V>, p: spec_fn(V) -> bool) -> Seq<V> {
    rows.filter(opposite(p))
}

/// The rows that meet the condition, in the given order; rows that are equal in
/// it keep the order of the table.
pub open spec fn chosen<V>(
    rows: Seq<V>,
    wanted: spec_fn(V) -> bool,
    key: spec_fn(V) -> Seq<SortView>,
    descending: Seq<bool>,
) -> Seq<V> {
    let hits = rows.filter(wanted);
    ranking::ranking(hits.map_values(key), descending).map_values(|i: int| hits[i])
}

/// At most `limit` rows, after the first `offset`.
pub open spec fn page<V>(rows: Seq<V>, limit: nat, offset: nat) -> Seq<V> {
    if offset >= rows.len() {
        Seq::empty()
    } else if rows.len() - offset <= limit {
        rows.skip(offset as int)
    } else {
        rows.subrange(offset as int, (offset + limit) as int)
    }
}

/// One of the rows meets the condition.
pub open spec fn some_row<V>(rows: Seq<V>, p: spec_fn(V) -> bool) -> bool {
    exists|i: int| 0 <= i < rows.len() && p(#[trigger] rows[i])
}

/// `i` is the first row that meets the condition.
pub open spec fn is_first<V>(rows: Seq<V>, p: spec_fn(V) -> bool, i: int) -> bool {
    &&& 0 <= i < rows.len()
    &&& p(rows[i])
    &&& forall|j: int| 0 <= j < i ==> !p(#[trigger] rows[j])
}

/// The first row that meets the condition.
pub open spec fn first<V>(rows: Seq<V>, p: spec_fn(V) -> bool) -> Option<V> {
    if exists|i: int| is_first(rows, p, i) {
        Some(rows[choose|i: int| is_first(rows, p, i)])
    } else {
        None
    }
}

pub proof fn lemma_first<V>(rows: Seq<V>, p: spec_fn(V) -> bool, i: int)
    requires
        is_first(rows, p, i),
    ensures
        first(rows, p) == Some(rows[i]),
        some_row(rows, p),
{
    let c = choose|c: int| is_first(rows, p, c);
    assert(is_first(rows, p, c));
    if c < i {
        assert(!p(rows[c]));
    }
    if i < c {
        assert(!p(rows[i]));
    }
}

/// Where some row meets the condition, there is a first one.
pub proof fn lemma_some_first<V>(rows: Seq<V>, p: spec_fn(V) -> bool, k: int)
    requires
        0 <= k < rows.len(),
        p(rows[k]),
    ensures
        exists|i: int| is_first(rows, p, i),
        first(rows, p) is Some,
    decreases k,
{
    if exists|j: int| 0 <= j < k && p(#[trigger] rows[j]) {
        let j = choose|j: int| 0 <= j < k && p(#[trigger] rows[j]);
        lemma_some_first(rows, p, j);
    } else {
        assert(is_first(rows, p, k));
    }
}

/// Where no row meets the condition, there is no first one.
pub proof fn lemma_no_first<V>(rows: Seq<V>, p: spec_fn(V) -> bool)
    ensures
        !some_row(rows, p) <==> first(rows, p) is None,
{
    if some_row(rows, p) {
        let k = choose|k: int| 0 <= k < rows.len() && p(#[trigger] rows[k]);
        lemma_some_first(rows, p, k);
    }
}

/// A page that is long enough for all rows shows all that are chosen.
pub proof fn lemma_whole_page<V>(
    rows: Seq<V>,
    wanted: spec_fn(V) -> bool,
    key: spec_fn(V) -> Seq<SortView>,
    descending: Seq<bool>,
    limit: nat,
)
    requires
        limit >= rows.len(),
    ensures
        page(chosen(rows, wanted, key, descending), limit, 0) == chosen(
            rows,
            wanted,
            key,
            descending,
        ),
{
    let all = chosen(rows, wanted, key, descending);
    rows.lemma_filter_len(wanted);
    ranking::lemma_ranking_len(rows.filter(wanted).map_values(key), descending);
    assert(page(all, limit, 0) =~= all);
}

// ---------------------------------------------------------------------------
// Looking for rows
// ---------------------------------------------------------------------------
/// The position of the first row that meets the condition.
pub fn find_row<R: View, T: RowTest<R>>(rows: &Vec<R>, test: &T) -> (r: Option<usize>)
    ensures
        match r {
            Some(i) => is_first(views(rows@), test.wanted(), i as int) && first(
                views(rows@),
                test.wanted(),
            ) == Some(rows@[i as int]@),
            None => !some_row(views(rows@), test.wanted()) && first(
                views(rows@),
                test.wanted(),
            ) is None,
        },
{
    let ghost all = views(rows@);
    let mut i: usize = 0;
    while i < rows.len()
        invariant
            i <= rows@.len(),
            all == views(rows@),
            forall|j: int| 0 <= j < i ==> !(test.wanted())(#[trigger] all[j]),
        decreases rows@.len() - i,
    {
        assert(all[i as int] == rows@[i as int]@);
        if test.test(&rows[i]) {
            proof {
                lemma_first(all, test.wanted(), i as int);
            }
            return Some(i);
        }
        i = i + 1;
    }
    None
}

/// Whether a row meets the condition.
pub fn any_row<R: View, T: RowTest<R>>(rows: &Vec<R>, test: &T) -> (r: bool)
    ensures
        r == some_row(views(rows@), test.wanted()),
{
    find_row(rows, test).is_some()
}

/// How many rows meet the condition.
pub fn count_rows<R: View, T: RowTest<R>>(rows: &Vec<R>, test: &T) -> (r: usize)
    ensures
        r == lists::count(views(rows@), test.wanted()),
{
    let ghost all = views(rows@);
    let ghost p = test.wanted();
    let mut n: usize = 0;
    let mut i: usize = 0;
    proof {
        reveal(Seq::filter);
        assert(lists::count(all.take(0), p) == 0);
    }
    while i < rows.len()
        invariant
            i <= rows@.len(),
            n <= i,
            all == views(rows@),
            p == test.wanted(),
            n == lists::count(all.take(i as int), p),
        decreases rows@.len() - i,
    {
        proof {
            assert(all.take(i + 1) =~= all.take(i as int).push(all[i as int]));
            lists::lemma_count_push(all.take(i as int), p, all[i as int]);
        }
        if test.test(&rows[i]) {
            n = n + 1;
        }
        i = i + 1;
    }
    assert(all.take(i as int) =~= all);
    n
}

/// The positions of the rows that meet the condition, in the order of the
/// table.
pub fn matching_rows<R: View, T: RowTest<R>>(rows: &Vec<R>, test: &T) -> (r: Vec<usize>)
    ensures
        r@.len() == views(rows@).filter(test.wanted()).len(),
        forall|j: int|
            0 <= j < r@.len() ==> (#[trigger] r@[j]) < rows@.len() && rows@[r@[j] as int]@
                == views(rows@).filter(test.wanted())[j],
{
    let ghost all = views(rows@);
    let ghost p = test.wanted();
    let mut r: Vec<usize> = Vec::new();
    let mut i: usize = 0;
    proof {
        reveal(Seq::filter);
        assert(all.take(0).filter(p) =~= Seq::empty());
    }
    while i < rows.len()
        invariant
            i <= rows@.len(),
            all == views(rows@),
            p == test.wanted(),
            r@.len() == all.take(i as int).filter(p).len(),
            forall|j: int|
                0 <= j < r@.len() ==> (#[trigger] r@[j]) < rows@.len() && rows@[r@[j] as int]@
                    == all.take(i as int).filter(p)[j],
        decreases rows@.len() - i,
    {
        proof {
            assert(all.take(i + 1) =~= all.take(i as int).push(all[i as int]));
            search::lemma_filter_push(all.take(i as int), p, all[i as int]);
        }
        if test.test(&rows[i]) {
            r.push(i);
        }
        i = i + 1;
    }
    assert(all.take(i as int) =~= all);
    r
}

/// The positions of the rows that meet the condition, in the given order, at
/// most `limit` of them after the first `offset`.
pub fn select_rows<R: View, T: RowTest<R>, K: RowKey<R>>(
    rows: &Vec<R>,
    test: &T,
    key: &K,
    limit: usize,
    offset: usize,
) -> (r: Vec<usize>)
    ensures
        r@.len() == page(
            chosen(views(rows@), test.wanted(), key.key(), key.directions()),
            limit as nat,
            offset as nat,
        ).len(),
        forall|i: int|
            0 <= i < r@.len() ==> (#[trigger] r@[i]) < rows@.len() && rows@[r@[i] as int]@
                == page(
                chosen(views(rows@), test.wanted(), key.key(), key.directions()),
                limit as nat,
                offset as nat,
            )[i],
{
    let ghost all = views(rows@);
    let hits: Vec<usize> = matching_rows(rows, test);
    let ghost found = all.filter(test.wanted());
    let ghost want = found.map_values(key.key());
    let mut keys: Vec<Vec<SortValue>> = Vec::new();
    let mut i: usize = 0;
    while i < hits.len()
        invariant
            i <= hits@.len(),
            hits@.len() == found.len(),
            want == found.map_values(key.key()),
            forall|j: int|
                0 <= j < hits@.len() ==> (#[trigger] hits@[j]) < rows@.len()
                    && rows@[hits@[j] as int]@ == found[j],
            keys@.len() == i,
            ranking::keys_view(keys@) == want.take(i as int),
            forall|j: int|
                0 <= j < keys@.len() ==> (#[trigger] keys@[j])@.len() == key.directions().len(),
        decreases hits@.len() - i,
    {
        let ghost before = keys@;
        keys.push(key.key_of(&rows[hits[i]]));
        i = i + 1;
        proof {
            assert(ranking::keys_view(keys@) =~= ranking::keys_view(before).push(want[i - 1]));
            assert(want.take(i as int) =~= want.take(i - 1).push(want[i - 1]));
        }
    }
    assert(want.take(i as int) =~= want);
    let descending: Vec<bool> = key.descending();
    let places: Vec<usize> = ranking::rank(&keys, &descending);
    let ghost sorted = chosen(all, test.wanted(), key.key(), key.directions());
    proof {
        assert(sorted.len() == places@.len());
        assert forall|j: int| 0 <= j < places@.len() implies found[#[trigger] places@[j] as int]
            == sorted[j] by {
            assert(ranking::positions(places@)[j] == places@[j]);
        }
    }
    let ghost wanted = page(sorted, limit as nat, offset as nat);
    let mut r: Vec<usize> = Vec::new();
    let mut k: usize = offset;
    while k < places.len() && k - offset < limit
        invariant
            offset <= k,
            offset < places@.len() ==> k <= places@.len(),
            offset >= places@.len() ==> k == offset,
            k - offset <= limit,
            r@.len() == k - offset,
            hits@.len() == found.len(),
            sorted.len() == places@.len(),
            wanted == page(sorted, limit as nat, offset as nat),
            forall|j: int|
                0 <= j < hits@.len() ==> (#[trigger] hits@[j]) < rows@.len()
                    && rows@[hits@[j] as int]@ == found[j],
            forall|j: int| 0 <= j < places@.len() ==> (#[trigger] places@[j]) < hits@.len(),
            forall|j: int|
                0 <= j < places@.len() ==> found[#[trigger] places@[j] as int] == sorted[j],
            forall|j: int|
                0 <= j < r@.len() ==> (#[trigger] r@[j]) < rows@.len() && rows@[r@[j] as int]@
                    == wanted[j],
        decreases places@.len() - k,
    {
        let at: usize = places[k];
        r.push(hits[at]);
        proof {
            assert(wanted[k - offset] == sorted[k as int]);
        }
        k = k + 1;
    }
    r
}

/// The rows that meet the condition, in the given order, at most `limit` of
/// them after the first `offset`, as they are shown.
pub fn list_rows<R: View, S: View, T: RowTest<R>, K: RowKey<R>, D: RowDisplay<R, S>>(
    rows: &Vec<R>,
    test: &T,
    key: &K,
    display: &D,
    limit: usize,
    offset: usize,
) -> (r: Vec<S>)
    ensures
        views(r@) == page(
            chosen(views(rows@), test.wanted(), key.key(), key.directions()),
            limit as nat,
            offset as nat,
        ).map_values(display.shown()),
{
    let places: Vec<usize> = select_rows(rows, test, key, limit, offset);
    let ghost wanted = page(
        chosen(views(rows@), test.wanted(), key.key(), key.directions()),
        limit as nat,
        offset as nat,
    );
    let ghost all = wanted.map_values(display.shown());
    let mut r: Vec<S> = Vec::new();
    let mut i: usize = 0;
    while i < places.len()
        invariant
            i <= places@.len(),
            places@.len() == wanted.len(),
            all == wanted.map_values(display.shown()),
            forall|j: int|
                0 <= j < places@.len() ==> (#[trigger] places@[j]) < rows@.len()
                    && rows@[places@[j] as int]@ == wanted[j],
            views(r@) == all.take(i as int),
        decreases places@.len() - i,
    {
        let ghost before = r@;
        r.push(display.show(&rows[places[i]]));
        i = i + 1;
        proof {
            assert(views(r@) =~= views(before).push(all[i - 1]));
            assert(all.take(i as int) =~= all.take(i - 1).push(all[i - 1]));
        }
    }
    assert(all.take(i as int) =~= all);
    r
}

// ---------------------------------------------------------------------------
// Changing rows
// ---------------------------------------------------------------------------
/// Changes every row.
pub fn update_rows<R: View, C: RowChange<R>>(rows: &mut Vec<R>, change: &C)
    ensures
        views(final(rows)@) == views(old(rows)@).map_values(change.changed()),
{
    let ghost start = views(rows@);
    let mut i: usize = 0;
    while i < rows.len()
        invariant
            i <= rows@.len(),
            start.len() == rows@.len(),
            forall|j: int| 0 <= j < i ==> (#[trigger] rows@[j])@ == (change.changed())(start[j]),
            forall|j: int| i <= j < rows@.len() ==> (#[trigger] rows@[j])@ == start[j],
        decreases rows@.len() - i,
    {
        change.apply(&mut rows[i]);
        i = i + 1;
    }
    assert(views(rows@) =~= start.map_values(change.changed()));
}

/// Deletes the rows that meet the condition, and returns how many there were.
pub fn delete_rows<R: View, T: RowTest<R>>(rows: &mut Vec<R>, test: &T) -> (r: usize)
    ensures
        views(final(rows)@) == without(views(old(rows)@), test.wanted()),
        r == lists::count(views(old(rows)@), test.wanted()),
{
    let ghost start = views(rows@);
    let ghost p = test.wanted();
    let total: usize = rows.len();
    let mut kept: usize = 0;
    let mut seen: usize = 0;
    proof {
        reveal(Seq::filter);
        assert(without(start.take(0), p) =~= Seq::empty());
        assert(lists::count(start.take(0), p) == 0);
        assert(views(rows@).take(0) =~= Seq::empty());
        assert(views(rows@).skip(0) =~= start.skip(0));
    }
    while seen < total
        invariant
            kept <= seen <= total,
            total == start.len(),
            p == test.wanted(),
            rows@.len() == kept + (total - seen),
            views(rows@).take(kept as int) == without(start.take(seen as int), p),
            views(rows@).skip(kept as int) == start.skip(seen as int),
            seen - kept == lists::count(start.take(seen as int), p),
        decreases total - seen,
    {
        let ghost before = views(rows@);
        proof {
            assert(start.take(seen + 1) =~= start.take(seen as int).push(start[seen as int]));
            search::lemma_filter_push(start.take(seen as int), opposite(p), start[seen as int]);
            lists::lemma_count_push(start.take(seen as int), p, start[seen as int]);
            assert(before.skip(kept as int)[0] == start.skip(seen as int)[0]);
            assert(rows@[kept as int]@ == start[seen as int]);
        }
        if test.test(&rows[kept]) {
            let _gone: R = rows.remove(kept);
            proof {
                assert(views(rows@) =~= before.remove(kept as int));
                assert(views(rows@).take(kept as int) =~= before.take(kept as int));
                assert(views(rows@).skip(kept as int) =~= before.skip(kept as int).skip(1));
                assert(start.skip(seen as int).skip(1) =~= start.skip(seen + 1));
            }
        } else {
            kept = kept + 1;
            proof {
                assert(before.take(kept as int) =~= before.take(kept - 1).push(
                    start[seen as int],
                ));
                assert(before.skip(kept as int) =~= before.skip(kept - 1).skip(1));
                assert(start.skip(seen as int).skip(1) =~= start.skip(seen + 1));
            }
        }
        seen = seen + 1;
    }
    proof {
        assert(start.take(seen as int) =~= start);
        assert(views(rows@).take(kept as int) =~= views(rows@));
    }
    total - kept
}

// ---------------------------------------------------------------------------
// Keys
// ---------------------------------------------------------------------------
/// No two rows have the same key.
pub open spec fn distinct_by<V, K>(rows: Seq<V>, key: spec_fn(V) -> K) -> bool {
    forall|i: int, j: int|
        0 <= i < j < rows.len() ==> key(#[trigger] rows[i]) != key(#[trigger] rows[j])
}

/// A change that keeps the keys keeps them distinct.
pub proof fn lemma_distinct_map<V, K>(rows: Seq<V>, f: spec_fn(V) -> V, key: spec_fn(V) -> K)
    requires
        distinct_by(rows, key),
        forall|v: V| key(#[trigger] f(v)) == key(v),
    ensures
        distinct_by(rows.map_values(f), key),
{
}

/// A row with a new key keeps the keys distinct.
pub proof fn lemma_distinct_push<V, K>(rows: Seq<V>, row: V, key: spec_fn(V) -> K)
    requires
        distinct_by(rows, key),
        forall|i: int| 0 <= i < rows.len() ==> key(#[trigger] rows[i]) != key(row),
    ensures
        distinct_by(rows.push(row), key),
{
}

/// What a filter keeps are rows of the table.
pub proof fn lemma_filter_members<V>(rows: Seq<V>, p: spec_fn(V) -> bool)
    ensures
        forall|i: int|
            0 <= i < rows.filter(p).len() ==> rows.contains(#[trigger] rows.filter(p)[i]) && p(
                rows.filter(p)[i],
            ),
    decreases rows.len(),
{
    reveal(Seq::filter);
    if rows.len() > 0 {
        let rest = rows.drop_last();
        lemma_filter_members(rest, p);
        assert forall|i: int| 0 <= i < rows.filter(p).len() implies rows.contains(
            #[trigger] rows.filter(p)[i],
        ) && p(rows.filter(p)[i]) by {
            if i < rest.filter(p).len() {
                assert(rows.filter(p)[i] == rest.filter(p)[i]);
                assert(rest.contains(rest.filter(p)[i]));
                let k = choose|k: int| 0 <= k < rest.len() && rest[k] == rest.filter(p)[i];
                assert(rows[k] == rest[k]);
            } else {
                assert(rows[rows.len() - 1] == rows.filter(p)[i]);
            }
        }
    }
}

/// Deleting rows keeps the keys distinct.
pub proof fn lemma_distinct_filter<V, K>(
    rows: Seq<V>,
    p: spec_fn(V) -> bool,
    key: spec_fn(V) -> K,
)
    requires
        distinct_by(rows, key),
    ensures
        distinct_by(rows.filter(p), key),
    decreases rows.len(),
{
    reveal(Seq::filter);
    if rows.len() > 0 {
        let rest = rows.drop_last();
        assert(distinct_by(rest, key)) by {
            assert forall|i: int, j: int| 0 <= i < j < rest.len() implies key(#[trigger] rest[i])
                != key(#[trigger] rest[j]) by {
                assert(rest[i] == rows[i]);
                assert(rest[j] == rows[j]);
            }
        }
        lemma_distinct_filter(rest, p, key);
        if p(rows.last()) {
            lemma_filter_members(rest, p);
            assert forall|i: int| 0 <= i < rest.filter(p).len() implies key(
                #[trigger] rest.filter(p)[i],
            ) != key(rows.last()) by {
                assert(rest.contains(rest.filter(p)[i]));
                let k = choose|k: int| 0 <= k < rest.len() && rest[k] == rest.filter(p)[i];
                assert(rows[k] == rest[k]);
                assert(key(rows[k]) != key(rows[rows.len() - 1]));
            }
            lemma_distinct_push(rest.filter(p), rows.last(), key);
        }
    }
}

/// A change that keeps what a condition looks at keeps which rows meet it.
pub proof fn lemma_some_row_map<V>(rows: Seq<V>, f: spec_fn(V) -> V, p: spec_fn(V) -> bool)
    requires
        forall|v: V| p(#[trigger] f(v)) == p(v),
    ensures
        some_row(rows.map_values(f), p) == some_row(rows, p),
{
    let mapped = rows.map_values(f);
    if some_row(rows, p) {
        let i = choose|i: int| 0 <= i < rows.len() && p(#[trigger] rows[i]);
        assert(mapped[i] == f(rows[i]));
        assert(p(mapped[i]));
    }
    if some_row(mapped, p) {
        let i = choose|i: int| 0 <= i < mapped.len() && p(#[trigger] mapped[i]);
        assert(mapped[i] == f(rows[i]));
        assert(p(rows[i]));
    }
}

/// A row that is put in meets what it meets, and the others what they met.
pub proof fn lemma_some_row_push<V>(rows: Seq<V>, row: V, p: spec_fn(V) -> bool)
    ensures
        some_row(rows.push(row), p) == (some_row(rows, p) || p(row)),
{
    let more = rows.push(row);
    if some_row(rows, p) {
        let i = choose|i: int| 0 <= i < rows.len() && p(#[trigger] rows[i]);
        assert(more[i] == rows[i]);
    }
    if p(row) {
        assert(more[rows.len() as int] == row);
    }
    if some_row(more, p) {
        let i = choose|i: int| 0 <= i < more.len() && p(#[trigger] more[i]);
        if i < rows.len() {
            assert(rows[i] == more[i]);
        }
    }
}

// ---------------------------------------------------------------------------
// Pages
// ---------------------------------------------------------------------------
/// The first `n` pages of `size` rows each, one after the other.
pub open spec fn pages<V>(rows: Seq<V>, size: nat, n: nat) -> Seq<V>
    decreases n,
{
    if n == 0 {
        Seq::empty()
    } else {
        pages(rows, size, (n - 1) as nat) + page(rows, size, ((n - 1) * size) as nat)
    }
}

/// Pages that are taken in turn leave out no row and repeat none; the first page
/// without rows comes after all rows.
pub proof fn lemma_pages<V>(rows: Seq<V>, size: nat, n: nat)
    requires
        size > 0,
    ensures
        pages(rows, size, n) == if n * size < rows.len() {
            rows.take((n * size) as int)
        } else {
            rows
        },
        page(rows, size, n * size).len() == 0 <==> rows.len() <= n * size,
    decreases n,
{
    if n == 0 {
        assert(pages(rows, size, n) =~= rows.take(0));
        if rows.len() == 0 {
            assert(rows.take(0) =~= rows);
        }
    } else {
        let before = ((n - 1) * size) as nat;
        assert(n * size == (n - 1) * size + size) by (nonlinear_arith);
        assert((n - 1) * size >= 0) by (nonlinear_arith)
            requires
                n >= 1,
        ;
        lemma_pages(rows, size, (n - 1) as nat);
        assert(pages(rows, size, n) =~= if n * size < rows.len() {
            rows.take((n * size) as int)
        } else {
            rows
        });
    }
}

/// The rows that are chosen are those that meet the condition; where no two rows
/// have the same key, none is chosen twice.
pub proof fn lemma_chosen<V, K>(
    rows: Seq<V>,
    wanted: spec_fn(V) -> bool,
    key: spec_fn(V) -> Seq<SortView>,
    descending: Seq<bool>,
    id: spec_fn(V) -> K,
)
    requires
        distinct_by(rows, id),
    ensures
        chosen(rows, wanted, key, descending).len() == rows.filter(wanted).len(),
        distinct_by(chosen(rows, wanted, key, descending), id),
        forall|v: V| #[trigger]
            chosen(rows, wanted, key, descending).contains(v) <==> rows.contains(v) && wanted(v),
{
    let hits = rows.filter(wanted);
    let keys = hits.map_values(key);
    let places = ranking::ranking(keys, descending);
    let all = chosen(rows, wanted, key, descending);
    ranking::lemma_ranking(keys, descending);
    ranking::lemma_ranking_len(keys, descending);
    ranking::lemma_ranking_distinct(keys, descending);
    lemma_distinct_filter(rows, wanted, id);
    lemma_filter_members(rows, wanted);
    assert forall|i: int, j: int| 0 <= i < j < all.len() implies id(#[trigger] all[i]) != id(
        #[trigger] all[j],
    ) by {
        assert(places.contains(places[i]) && places.contains(places[j]));
        assert(places[i] != places[j]);
        assert(all[i] == hits[places[i]] && all[j] == hits[places[j]]);
        if places[i] < places[j] {
            assert(id(hits[places[i]]) != id(hits[places[j]]));
        } else {
            assert(id(hits[places[j]]) != id(hits[places[i]]));
        }
    }
    assert forall|v: V| #[trigger] all.contains(v) <==> rows.contains(v) && wanted(v) by {
        if all.contains(v) {
            let i = choose|i: int| 0 <= i < all.len() && all[i] == v;
            assert(places.contains(places[i]));
            assert(all[i] == hits[places[i]]);
        }
        if rows.contains(v) && wanted(v) {
            let k = choose|k: int| 0 <= k < rows.len() && rows[k] == v;
            rows.lemma_filter_contains(wanted, k);
            let m = choose|m: int| 0 <= m < hits.len() && hits[m] == v;
            assert(places.contains(m));
            let i = choose|i: int| 0 <= i < places.len() && places[i] == m;
            assert(all[i] == v);
        }
    }
}

} // verus!
