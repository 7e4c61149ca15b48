//! Orders on texts and on rows, and the sorting that goes with them.

use vstd::prelude::*;
use crate::search;
use crate::text;

verus! {

// ---------------------------------------------------------------------------
// Sequences sorted by a strict order
// ---------------------------------------------------------------------------
/// Each element of `s` comes before every later one.
pub open spec fn ascending_by<A>(s: Seq<A>, lt: spec_fn(A, A) -> bool) -> bool {
    forall|i: int, j: int| 0 <= i < j < s.len() ==> lt(#[trigger] s[i], #[trigger] s[j])
}

/// The same values occur in `a` and in `b`.
pub open spec fn same_members<A>(a: Seq<A>, b: Seq<A>) -> bool {
    forall|x: A| a.contains(x) <==> #[trigger] b.contains(x)
}

/// A strict order leaves one way only to list given values in ascending order.
pub proof fn lemma_ascending_unique<A>(a: Seq<A>, b: Seq<A>, lt: spec_fn(A, A) -> bool)
    requires
        ascending_by(a, lt),
        ascending_by(b, lt),
        same_members(a, b),
        forall|x: A, y: A| #[trigger] lt(x, y) ==> !lt(y, x),
    ensures
        a == b,
    decreases a.len(),
{
    if a.len() == 0 {
        if b.len() > 0 {
            assert(b.contains(b[0]));
        }
        assert(a =~= b);
    } else {
        assert(a.contains(a.last()));
        assert(b.contains(a.last()));
        assert(b.contains(b.last()));
        assert(a.contains(b.last()));
        let j = choose|j: int| 0 <= j < b.len() && b[j] == a.last();
        let i = choose|i: int| 0 <= i < a.len() && a[i] == b.last();
        if a.last() != b.last() {
            assert(lt(b[j], b[b.len() - 1]));
            assert(lt(a[i], a[a.len() - 1]));
        }
        let x = a.drop_last();
        let y = b.drop_last();
        assert forall|v: A| x.contains(v) <==> #[trigger] y.contains(v) by {
            if x.contains(v) {
                let k = choose|k: int| 0 <= k < x.len() && x[k] == v;
                assert(a[k] == v);
                assert(a.contains(v));
                assert(b.contains(v));
                let m = choose|m: int| 0 <= m < b.len() && b[m] == v;
                assert(lt(a[k], a[a.len() - 1]));
                assert(y[m] == v);
            }
            if y.contains(v) {
                let k = choose|k: int| 0 <= k < y.len() && y[k] == v;
                assert(b[k] == v);
                assert(b.contains(v));
                let m = choose|m: int| 0 <= m < a.len() && a[m] == v;
                assert(lt(b[k], b[b.len() - 1]));
                assert(x[m] == v);
            }
        }
        lemma_ascending_unique(x, y, lt);
        assert(a =~= x.push(a.last()));
        assert(b =~= y.push(b.last()));
    }
}

// ---------------------------------------------------------------------------
// The order of texts
// ---------------------------------------------------------------------------
/// `a` comes before `b` in the lexicographic order of their characters.
pub open spec fn before(a: Seq<char>, b: Seq<char>) -> bool
    decreases a.len(),
{
    if b.len() == 0 {
        false
    } else if a.len() == 0 {
        true
    } else if a[0] != b[0] {
        (a[0] as int) < (b[0] as int)
    } else {
        before(a.skip(1), b.skip(1))
    }
}

pub proof fn lemma_before_irreflexive(a: Seq<char>)
    ensures
        !before(a, a),
    decreases a.len(),
{
    if a.len() > 0 {
        lemma_before_irreflexive(a.skip(1));
    }
}

pub proof fn lemma_before_transitive(a: Seq<char>, b: Seq<char>, c: Seq<char>)
    requires
        before(a, b),
        before(b, c),
    ensures
        before(a, c),
    decreases a.len(),
{
    if a.len() > 0 && b.len() > 0 && c.len() > 0 && a[0] == b[0] && b[0] == c[0] {
        lemma_before_transitive(a.skip(1), b.skip(1), c.skip(1));
    }
}

pub proof fn lemma_before_total(a: Seq<char>, b: Seq<char>)
    ensures
        before(a, b) || before(b, a) || a == b,
    decreases a.len(),
{
    if a.len() > 0 && b.len() > 0 && a[0] == b[0] {
        lemma_before_total(a.skip(1), b.skip(1));
        if a.skip(1) == b.skip(1) {
            assert(a =~= seq![a[0]] + a.skip(1));
            assert(b =~= seq![b[0]] + b.skip(1));
        }
    } else if a.len() == 0 && b.len() == 0 {
        assert(a =~= b);
    } else if a.len() > 0 && b.len() > 0 {
        assert(a[0] as int != b[0] as int);
    }
}

/// No two texts come before each other.
pub proof fn lemma_before_asymmetric(a: Seq<char>, b: Seq<char>)
    ensures
        before(a, b) ==> !before(b, a),
{
    if before(a, b) && before(b, a) {
        lemma_before_transitive(a, b, a);
        lemma_before_irreflexive(a);
    }
}

fn char_before(c: char, d: char) -> (r: bool)
    ensures
        r == ((c as int) < (d as int)),
{
    (c as u32) < (d as u32)
}

fn before_from(a: &Vec<char>, b: &Vec<char>, from: usize) -> (r: bool)
    requires
        from <= a@.len(),
        from <= b@.len(),
    ensures
        r == before(a@.skip(from as int), b@.skip(from as int)),
{
    let mut i: usize = from;
    while i < a.len() && i < b.len() && a[i] == b[i]
        invariant
            from <= i <= a@.len(),
            i <= b@.len(),
            before(a@.skip(from as int), b@.skip(from as int)) == before(
                a@.skip(i as int),
                b@.skip(i as int),
            ),
        decreases a@.len() - i,
    {
        assert(a@.skip(i as int).skip(1) =~= a@.skip(i + 1));
        assert(b@.skip(i as int).skip(1) =~= b@.skip(i + 1));
        i = i + 1;
    }
    if i == b.len() {
        false
    } else if i == a.len() {
        true
    } else {
        char_before(a[i], b[i])
    }
}

/// Whether `a` comes before `b`.
pub fn comes_before(a: &str, b: &str) -> (r: bool)
    ensures
        r == before(a@, b@),
{
    let x: Vec<char> = text::chars_of(a);
    let y: Vec<char> = text::chars_of(b);
    assert(x@.skip(0) =~= x@);
    assert(y@.skip(0) =~= y@);
    before_from(&x, &y, 0)
}

// ---------------------------------------------------------------------------
// Sorting texts without repetition
// ---------------------------------------------------------------------------
pub open spec fn text_order() -> spec_fn(Seq<char>, Seq<char>) -> bool {
    |a: Seq<char>, b: Seq<char>| before(a, b)
}

/// The texts of `s` are in ascending order, and none occurs twice.
pub open spec fn ascending(s: Seq<Seq<char>>) -> bool {
    ascending_by(s, text_order())
}

/// `r` lists the texts of `s` in ascending order, each once.
pub open spec fn is_sorted_set_of(r: Seq<Seq<char>>, s: Seq<Seq<char>>) -> bool {
    ascending(r) && same_members(r, s)
}

/// The texts of `s` in ascending order, each once.
pub open spec fn sorted_set(s: Seq<Seq<char>>) -> Seq<Seq<char>> {
    choose|r: Seq<Seq<char>>| is_sorted_set_of(r, s)
}

pub proof fn lemma_sorted_set_unique(r: Seq<Seq<char>>, s: Seq<Seq<char>>)
    requires
        is_sorted_set_of(r, s),
    ensures
        r == sorted_set(s),
{
    let c = sorted_set(s);
    assert(is_sorted_set_of(c, s));
    let lt = text_order();
    assert forall|x: Seq<char>, y: Seq<char>| #[trigger] lt(x, y) implies !lt(y, x) by {
        lemma_before_asymmetric(x, y);
    }
    assert forall|x: Seq<char>| r.contains(x) <==> #[trigger] c.contains(x) by {
        assert(r.contains(x) <==> s.contains(x));
        assert(c.contains(x) <==> s.contains(x));
    }
    lemma_ascending_unique(r, c, lt);
}

/// Where `t` stands in the ascending texts `r`, or where it would stand.
pub open spec fn is_place(r: Seq<Seq<char>>, t: Seq<char>, at: int, found: bool) -> bool {
    &&& 0 <= at <= r.len()
    &&& forall|j: int| 0 <= j < at ==> before(#[trigger] r[j], t)
    &&& found ==> at < r.len() && r[at] == t
    &&& !found ==> forall|j: int| at <= j < r.len() ==> before(t, #[trigger] r[j])
}

proof fn lemma_place(r: Seq<Seq<char>>, s: Seq<Seq<char>>, t: Seq<char>, at: int, found: bool)
    requires
        is_sorted_set_of(r, s),
        is_place(r, t, at, found),
    ensures
        found <==> s.contains(t),
        found ==> is_sorted_set_of(r, s.push(t)),
        !found ==> is_sorted_set_of(r.insert(at, t), s.push(t)),
{
    let next = s.push(t);
    assert(next[next.len() - 1] == t);
    assert forall|x: Seq<char>| #[trigger] next.contains(x) <==> s.contains(x) || x == t by {
        if s.contains(x) {
            let k = choose|k: int| 0 <= k < s.len() && s[k] == x;
            assert(next[k] == x);
        }
        if next.contains(x) {
            let k = choose|k: int| 0 <= k < next.len() && next[k] == x;
            if k < s.len() {
                assert(s[k] == x);
            }
        }
    }
    if found {
        assert(r.contains(t));
        assert(s.contains(t));
        assert forall|x: Seq<char>| r.contains(x) <==> #[trigger] next.contains(x) by {
            assert(r.contains(x) <==> s.contains(x));
        }
    } else {
        if s.contains(t) {
            assert(r.contains(t));
            let k = choose|k: int| 0 <= k < r.len() && r[k] == t;
            lemma_before_irreflexive(t);
        }
        let n = r.insert(at, t);
        assert forall|i: int, j: int| 0 <= i < j < n.len() implies before(
            #[trigger] n[i],
            #[trigger] n[j],
        ) by {
            if i < at && j > at {
                assert(n[i] == r[i]);
                assert(n[j] == r[j - 1]);
            } else if i < at && j < at {
                assert(n[i] == r[i]);
                assert(n[j] == r[j]);
            } else if i > at {
                assert(n[i] == r[i - 1]);
                assert(n[j] == r[j - 1]);
            }
            let lt = text_order();
            if i < at && j > at {
                assert(lt(r[i], r[j - 1]));
            } else if i < at && j < at {
                assert(lt(r[i], r[j]));
            } else if i > at {
                assert(lt(r[i - 1], r[j - 1]));
            }
        }
        assert forall|x: Seq<char>| n.contains(x) <==> #[trigger] next.contains(x) by {
            assert(r.contains(x) <==> s.contains(x));
            if n.contains(x) {
                let k = choose|k: int| 0 <= k < n.len() && n[k] == x;
                if k < at {
                    assert(r[k] == x);
                } else if k > at {
                    assert(r[k - 1] == x);
                }
            }
            if r.contains(x) {
                let k = choose|k: int| 0 <= k < r.len() && r[k] == x;
                if k < at {
                    assert(n[k] == x);
                } else {
                    assert(n[k + 1] == x);
                }
            }
            if x == t {
                assert(n[at] == t);
            }
        }
    }
}

/// A place for `t` exists in every ascending list.
proof fn lemma_place_exists(r: Seq<Seq<char>>, t: Seq<char>) -> (p: (int, bool))
    requires
        ascending(r),
    ensures
        is_place(r, t, p.0, p.1),
    decreases r.len(),
{
    if r.len() == 0 {
        (0, false)
    } else {
        let last = r.last();
        let rest = r.drop_last();
        assert(ascending(rest)) by {
            assert forall|i: int, j: int| 0 <= i < j < rest.len() implies text_order()(
                #[trigger] rest[i],
                #[trigger] rest[j],
            ) by {
                assert(text_order()(r[i], r[j]));
            }
        }
        lemma_before_total(t, last);
        if before(last, t) {
            assert forall|j: int| 0 <= j < r.len() implies before(#[trigger] r[j], t) by {
                if j < r.len() - 1 {
                    assert(text_order()(r[j], r[r.len() - 1]));
                    lemma_before_transitive(r[j], last, t);
                }
            }
            (r.len() as int, false)
        } else if t == last {
            assert forall|j: int| 0 <= j < r.len() - 1 implies before(#[trigger] r[j], t) by {
                assert(text_order()(r[j], r[r.len() - 1]));
            }
            (r.len() - 1, true)
        } else {
            let p = lemma_place_exists(rest, t);
            assert forall|j: int| 0 <= j < p.0 implies before(#[trigger] r[j], t) by {
                assert(r[j] == rest[j]);
            }
            if !p.1 {
                assert forall|j: int| p.0 <= j < r.len() implies before(t, #[trigger] r[j]) by {
                    if j < r.len() - 1 {
                        assert(r[j] == rest[j]);
                    }
                }
            } else {
                assert(rest[p.0] == r[p.0]);
            }
            p
        }
    }
}

/// `sorted_set` is what its name says, on every list of texts.
pub proof fn lemma_sorted_set(s: Seq<Seq<char>>)
    ensures
        is_sorted_set_of(sorted_set(s), s),
    decreases s.len(),
{
    if s.len() == 0 {
        assert(is_sorted_set_of(s, s));
    } else {
        let rest = s.drop_last();
        lemma_sorted_set(rest);
        let r = sorted_set(rest);
        let p = lemma_place_exists(r, s.last());
        lemma_place(r, rest, s.last(), p.0, p.1);
        assert(s =~= rest.push(s.last()));
        if p.1 {
            assert(is_sorted_set_of(r, s));
        } else {
            assert(is_sorted_set_of(r.insert(p.0, s.last()), s));
        }
    }
}

/// Sorting a sorted list without repetition changes nothing.
pub proof fn lemma_sorted_set_of_ascending(s: Seq<Seq<char>>)
    requires
        ascending(s),
    ensures
        sorted_set(s) == s,
{
    assert(is_sorted_set_of(s, s));
    lemma_sorted_set_unique(s, s);
}

/// Finds the place of `t` among the ascending texts `r`.
fn place_of(r: &Vec<String>, t: &str) -> (p: (usize, bool))
    requires
        ascending(search::texts(r@)),
    ensures
        is_place(search::texts(r@), t@, p.0 as int, p.1),
{
    let ghost all = search::texts(r@);
    let mut low: usize = 0;
    let mut high: usize = r.len();
    while low < high
        invariant
            all == search::texts(r@),
            ascending(all),
            low <= high <= r@.len(),
            forall|j: int| 0 <= j < low ==> before(#[trigger] all[j], t@),
            forall|j: int| high <= j < all.len() ==> !before(#[trigger] all[j], t@),
        decreases high - low,
    {
        let mid: usize = low + (high - low) / 2;
        assert(all[mid as int] == r@[mid as int]@);
        if comes_before(r[mid].as_str(), t) {
            proof {
                assert forall|j: int| 0 <= j < mid + 1 implies before(#[trigger] all[j], t@) by {
                    if j < mid {
                        assert(text_order()(all[j], all[mid as int]));
                        lemma_before_transitive(all[j], all[mid as int], t@);
                    }
                }
            }
            low = mid + 1;
        } else {
            proof {
                assert forall|j: int| mid <= j < all.len() implies !before(
                    #[trigger] all[j],
                    t@,
                ) by {
                    if j > mid && before(all[j], t@) {
                        assert(text_order()(all[mid as int], all[j]));
                        lemma_before_transitive(all[mid as int], all[j], t@);
                    }
                }
            }
            high = mid;
        }
    }
    if low < r.len() && text::same(r[low].as_str(), t) {
        assert(all[low as int] == t@);
        (low, true)
    } else {
        proof {
            assert forall|j: int| low <= j < all.len() implies before(t@, #[trigger] all[j]) by {
                lemma_before_total(all[j], t@);
                if all[j] == t@ && j > low {
                    assert(text_order()(all[low as int], all[j]));
                } else if all[j] == t@ {
                    assert(all[low as int] == r@[low as int]@);
                }
            }
        }
        (low, false)
    }
}

/// The texts of `v` in ascending order, each once.
pub fn sort_texts(v: &Vec<String>) -> (r: Vec<String>)
    ensures
        search::texts(r@) == sorted_set(search::texts(v@)),
        ascending(search::texts(r@)),
{
    let ghost all = search::texts(v@);
    let mut r: Vec<String> = Vec::new();
    let mut i: usize = 0;
    proof {
        assert(is_sorted_set_of(search::texts(r@), all.take(0)));
    }
    while i < v.len()
        invariant
            i <= v@.len(),
            all == search::texts(v@),
            is_sorted_set_of(search::texts(r@), all.take(i as int)),
        decreases v@.len() - i,
    {
        let p: (usize, bool) = place_of(&r, v[i].as_str());
        let ghost old_texts = search::texts(r@);
        proof {
            lemma_place(old_texts, all.take(i as int), all[i as int], p.0 as int, p.1);
            assert(all.take(i + 1) =~= all.take(i as int).push(all[i as int]));
        }
        if !p.1 {
            r.insert(p.0, v[i].clone());
            assert(search::texts(r@) =~= old_texts.insert(p.0 as int, all[i as int]));
        }
        i = i + 1;
    }
    proof {
        assert(all.take(i as int) =~= all);
        lemma_sorted_set_unique(search::texts(r@), all);
    }
    r
}

// ---------------------------------------------------------------------------
// Sorting texts without regard to case
// ---------------------------------------------------------------------------
pub open spec fn lowered(s: Seq<Seq<char>>) -> Seq<Seq<char>> {
    s.map_values(|t: Seq<char>| text::lower(t))
}

/// `s[i]` is the first text of `s` that has the lower-case form `key`.
pub open spec fn first_with_form(s: Seq<Seq<char>>, key: Seq<char>, i: int) -> bool {
    &&& 0 <= i < s.len()
    &&& text::lower(s[i]) == key
    &&& forall|j: int| 0 <= j < i ==> text::lower(#[trigger] s[j]) != key
}

/// The first text of `s` that has the lower-case form `key`.
pub open spec fn form_in(s: Seq<Seq<char>>, key: Seq<char>) -> Seq<char> {
    s[choose|i: int| first_with_form(s, key, i)]
}

/// The texts of `s` in the order of their lower-case forms; of texts that
/// differ only in case, the first stays.
pub open spec fn sorted_ignoring_case(s: Seq<Seq<char>>) -> Seq<Seq<char>> {
    sorted_set(lowered(s)).map_values(|key: Seq<char>| form_in(s, key))
}

proof fn lemma_form(s: Seq<Seq<char>>, key: Seq<char>, i: int)
    requires
        first_with_form(s, key, i),
    ensures
        form_in(s, key) == s[i],
{
    let c = choose|c: int| first_with_form(s, key, c);
    assert(first_with_form(s, key, c));
    if c < i {
        assert(text::lower(s[c]) != key);
    }
    if i < c {
        assert(text::lower(s[i]) != key);
    }
}

/// A later text does not replace the first of its form.
proof fn lemma_form_stays(s: Seq<Seq<char>>, t: Seq<char>, key: Seq<char>)
    requires
        lowered(s).contains(key),
    ensures
        form_in(s.push(t), key) == form_in(s, key),
    decreases s.len(),
{
    let k = choose|k: int| 0 <= k < lowered(s).len() && lowered(s)[k] == key;
    let i = lemma_first_form(s, key, k);
    lemma_form(s, key, i);
    let next = s.push(t);
    assert forall|j: int| 0 <= j < i implies text::lower(#[trigger] next[j]) != key by {
        assert(next[j] == s[j]);
    }
    assert(first_with_form(next, key, i));
    lemma_form(next, key, i);
}

proof fn lemma_first_form(s: Seq<Seq<char>>, key: Seq<char>, k: int) -> (i: int)
    requires
        0 <= k < s.len(),
        text::lower(s[k]) == key,
    ensures
        first_with_form(s, key, i),
    decreases k,
{
    if exists|j: int| 0 <= j < k && text::lower(#[trigger] s[j]) == key {
        let j = choose|j: int| 0 <= j < k && text::lower(#[trigger] s[j]) == key;
        lemma_first_form(s, key, j)
    } else {
        k
    }
}

/// In the list without regard to case the lower-case forms ascend, and each form
/// that occurs in `s` is spelled as it first occurs there.
pub proof fn lemma_sorted_ignoring_case(s: Seq<Seq<char>>)
    ensures
        lowered(sorted_ignoring_case(s)) == sorted_set(lowered(s)),
        ascending(lowered(sorted_ignoring_case(s))),
        same_members(lowered(sorted_ignoring_case(s)), lowered(s)),
        forall|k: int, i: int|
            0 <= k < sorted_ignoring_case(s).len() && #[trigger] first_with_form(
                s,
                text::lower(#[trigger] sorted_ignoring_case(s)[k]),
                i,
            ) ==> sorted_ignoring_case(s)[k] == s[i],
{
    let keys = sorted_set(lowered(s));
    let r = sorted_ignoring_case(s);
    lemma_sorted_set(lowered(s));
    assert forall|k: int| 0 <= k < r.len() implies #[trigger] lowered(r)[k] == keys[k] by {
        assert(keys.contains(keys[k]));
        assert(lowered(s).contains(keys[k]));
        let m = choose|m: int| 0 <= m < lowered(s).len() && lowered(s)[m] == keys[k];
        let i = lemma_first_form(s, keys[k], m);
        lemma_form(s, keys[k], i);
    }
    assert(lowered(r) =~= keys);
    assert forall|k: int, i: int|
        0 <= k < r.len() && #[trigger] first_with_form(
            s,
            text::lower(#[trigger] r[k]),
            i,
        ) implies r[k] == s[i] by {
        assert(lowered(r)[k] == keys[k]);
        lemma_form(s, keys[k], i);
    }
}

/// Sorting without regard to case what is sorted so changes nothing.
pub proof fn lemma_sorted_ignoring_case_idempotent(s: Seq<Seq<char>>)
    ensures
        sorted_ignoring_case(sorted_ignoring_case(s)) == sorted_ignoring_case(s),
{
    let r = sorted_ignoring_case(s);
    let keys = lowered(r);
    lemma_sorted_ignoring_case(s);
    lemma_sorted_set_of_ascending(keys);
    assert forall|k: int| 0 <= k < r.len() implies #[trigger] form_in(r, keys[k]) == r[k] by {
        assert forall|j: int| 0 <= j < k implies text::lower(#[trigger] r[j]) != keys[k] by {
            assert(keys[j] == text::lower(r[j]));
            assert(text_order()(keys[j], keys[k]));
            lemma_before_irreflexive(keys[k]);
        }
        assert(first_with_form(r, keys[k], k));
        lemma_form(r, keys[k], k);
    }
    assert(sorted_ignoring_case(r) =~= r);
}

/// Sorts `v` by lower-case form, keeping the first of the texts that differ
/// only in case.
pub fn sort_ignoring_case(v: &Vec<String>) -> (r: Vec<String>)
    ensures
        search::texts(r@) == sorted_ignoring_case(search::texts(v@)),
{
    let ghost all = search::texts(v@);
    let mut keys: Vec<String> = Vec::new();
    let mut r: Vec<String> = Vec::new();
    let mut i: usize = 0;
    proof {
        assert(is_sorted_set_of(search::texts(keys@), lowered(all.take(0))));
    }
    while i < v.len()
        invariant
            i <= v@.len(),
            all == search::texts(v@),
            is_sorted_set_of(search::texts(keys@), lowered(all.take(i as int))),
            r@.len() == keys@.len(),
            forall|j: int|
                0 <= j < r@.len() ==> (#[trigger] r@[j])@ == form_in(
                    all.take(i as int),
                    keys@[j]@,
                ),
        decreases v@.len() - i,
    {
        let key: String = text::to_lower(v[i].as_str());
        let p: (usize, bool) = place_of(&keys, key.as_str());
        let ghost seen = all.take(i as int);
        let ghost next = all.take(i + 1);
        let ghost old_keys = search::texts(keys@);
        proof {
            assert(next =~= seen.push(all[i as int]));
            assert(lowered(next) =~= lowered(seen).push(key@));
            lemma_place(old_keys, lowered(seen), key@, p.0 as int, p.1);
            assert forall|j: int| 0 <= j < r@.len() implies (#[trigger] r@[j])@ == form_in(
                next,
                keys@[j]@,
            ) by {
                assert(old_keys[j] == keys@[j]@);
                assert(old_keys.contains(keys@[j]@));
                lemma_form_stays(seen, all[i as int], keys@[j]@);
            }
        }
        if !p.1 {
            let ghost r0 = r@;
            let ghost k0 = keys@;
            keys.insert(p.0, key);
            r.insert(p.0, v[i].clone());
            proof {
                assert(search::texts(keys@) =~= old_keys.insert(p.0 as int, key@));
                assert(first_with_form(next, key@, i as int)) by {
                    assert forall|j: int| 0 <= j < i implies text::lower(#[trigger] next[j])
                        != key@ by {
                        assert(lowered(seen)[j] == text::lower(seen[j]));
                        if text::lower(next[j]) == key@ {
                            assert(lowered(seen).contains(key@));
                        }
                    }
                }
                lemma_form(next, key@, i as int);
                assert forall|j: int| 0 <= j < r@.len() implies (#[trigger] r@[j])@ == form_in(
                    next,
                    keys@[j]@,
                ) by {
                    if j < p.0 {
                        assert(r@[j] == r0[j]);
                        assert(keys@[j] == k0[j]);
                    } else if j > p.0 {
                        assert(r@[j] == r0[j - 1]);
                        assert(keys@[j] == k0[j - 1]);
                    }
                }
            }
        }
        i = i + 1;
    }
    proof {
        assert(all.take(i as int) =~= all);
        lemma_sorted_set_unique(search::texts(keys@), lowered(all));
        assert(search::texts(r@) =~= sorted_ignoring_case(all));
    }
    r
}

} // verus!
