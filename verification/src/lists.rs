//! Lists: keeping what is there, and counting.

use vstd::prelude::*;

verus! {

/// The values of `s` that are present, in their order.
pub open spec fn present<A>(s: Seq<Option<A>>) -> Seq<A>
    decreases s.len(),
{
    if s.len() == 0 {
        Seq::empty()
    } else {
        match s.last() {
            Some(x) => present(s.drop_last()).push(x),
            None => present(s.drop_last()),
        }
    }
}

pub proof fn lemma_present_push<A>(s: Seq<Option<A>>, x: Option<A>)
    ensures
        present(s.push(x)) == match x {
            Some(v) => present(s).push(v),
            None => present(s),
        },
{
    assert(s.push(x).drop_last() =~= s);
}

/// What is present in `s` is a member of `s`, and the other way round.
pub proof fn lemma_present_members<A>(s: Seq<Option<A>>)
    ensures
        forall|v: A| #[trigger] present(s).contains(v) <==> s.contains(Some(v)),
    decreases s.len(),
{
    if s.len() > 0 {
        let rest = s.drop_last();
        lemma_present_members(rest);
        assert forall|v: A| #[trigger] present(s).contains(v) <==> s.contains(Some(v)) by {
            if present(s).contains(v) {
                let k = choose|k: int| 0 <= k < present(s).len() && present(s)[k] == v;
                if k < present(rest).len() {
                    assert(present(rest)[k] == v);
                    assert(present(rest).contains(v));
                    let m = choose|m: int| 0 <= m < rest.len() && rest[m] == Some(v);
                    assert(s[m] == Some(v));
                } else {
                    assert(s[s.len() - 1] == Some(v));
                }
            }
            if s.contains(Some(v)) {
                let m = choose|m: int| 0 <= m < s.len() && s[m] == Some(v);
                if m < rest.len() {
                    assert(rest[m] == Some(v));
                    assert(rest.contains(Some(v)));
                    assert(present(rest).contains(v));
                    let k = choose|k: int| 0 <= k < present(rest).len() && present(rest)[k] == v;
                    assert(present(s)[k] == v);
                } else {
                    assert(present(s)[present(s).len() - 1] == v);
                }
            }
        }
    }
}

/// Where every value is present, all of them are kept.
pub proof fn lemma_present_all<A>(s: Seq<A>)
    ensures
        present(s.map_values(|x: A| Some(x))) == s,
    decreases s.len(),
{
    let all = s.map_values(|x: A| Some(x));
    if s.len() > 0 {
        lemma_present_all(s.drop_last());
        assert(all.drop_last() =~= s.drop_last().map_values(|x: A| Some(x)));
        assert(s =~= s.drop_last().push(s.last()));
    } else {
        assert(present(all) =~= s);
    }
}

/// How many elements of `s` satisfy `p`.
pub open spec fn count<A>(s: Seq<A>, p: spec_fn(A) -> bool) -> nat {
    s.filter(p).len()
}

pub proof fn lemma_count_push<A>(s: Seq<A>, p: spec_fn(A) -> bool, x: A)
    ensures
        count(s.push(x), p) == count(s, p) + if p(x) {
            1nat
        } else {
            0
        },
{
    crate::search::lemma_filter_push(s, p, x);
}

} // verus!
