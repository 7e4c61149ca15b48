//! What a review of languages reports, and what is kept of it.

use vstd::prelude::*;
use crate::db::known_list_laws;
use crate::db::list_laws;
use crate::db::rows::CreatorView;
use crate::db::table;
use crate::handles;
use crate::lists;
use crate::order;
use crate::ranking;
use crate::ranking::SortView;
use crate::review;
use crate::review::{
    ChangeView, LanguageReclassificationChange, LanguageReclassificationError, Review, ReviewResult,
};
use crate::text;

verus! {

/// The review found another language than the one that is kept, and the change says
/// which creator it is about, both languages, how certain the finding is, and why.
pub open spec fn changes_to(r: Review, c: LanguageReclassificationChange) -> bool {
    &&& r.result matches ReviewResult::Found(found)
    &&& found.language_code@ != text::upper(text::trim(r.creator.language_code@))
    &&& c.handle@ == r.creator.handle@
    &&& c.old_language_code@ == text::upper(text::trim(r.creator.language_code@))
    &&& c.new_language_code@ == found.language_code@
    &&& c.confidence == found.confidence
    &&& c.evidence@ == found.evidence@
}

/// The review failed, and the error says which creator it was about, and why.
pub open spec fn fails_with(r: Review, e: LanguageReclassificationError) -> bool {
    &&& r.result matches ReviewResult::Failed(error)
    &&& e.handle@ == r.creator.handle@
    &&& e.error@ == error@
}

/// The changes are those of the reviews, by handle.
pub proof fn law_changes_of_reviews(
    reviews: Seq<Review>,
    c: LanguageReclassificationChange,
    i: int,
    j: int,
)
    ensures
        ({
            let all = review::changes_of(table::views(reviews));
            &&& all.contains(c@) <==> exists|k: int|
                0 <= k < reviews.len() && changes_to(#[trigger] reviews[k], c)
            &&& 0 <= i < j < all.len() ==> !order::before(all[j].handle, all[i].handle)
        }),
{
    let views = table::views(reviews);
    let found = views.map_values(review::change_of());
    let there = lists::present(found);
    let all = review::changes_of(views);
    let key = review::change_order();
    known_list_laws::lemma_all_listed(there, key, seq![false], c@);
    lists::lemma_present_members(found);
    assert(there.contains(c@) <==> found.contains(Some(c@)));
    if found.contains(Some(c@)) {
        let k = choose|k: int| 0 <= k < found.len() && found[k] == Some(c@);
        assert(views[k] == reviews[k]@);
        assert(changes_to(reviews[k], c));
    }
    if exists|k: int| 0 <= k < reviews.len() && changes_to(#[trigger] reviews[k], c) {
        let k = choose|k: int| 0 <= k < reviews.len() && changes_to(#[trigger] reviews[k], c);
        assert(views[k] == reviews[k]@);
        assert(found[k] == Some(c@));
    }
    if 0 <= i < j < all.len() {
        list_laws::lemma_chosen_in_order(there, table::always(), key, seq![false], i, j);
        reveal_with_fuel(ranking::key_before, 2);
        assert(key(all[i])[0] == SortView::Text(all[i].handle));
        assert(key(all[j])[0] == SortView::Text(all[j].handle));
        order::lemma_before_irreflexive(all[i].handle);
    }
}

/// The errors are those of the reviews that failed, by handle.
pub proof fn law_errors_of_reviews(
    reviews: Seq<Review>,
    e: LanguageReclassificationError,
    i: int,
    j: int,
)
    ensures
        ({
            let all = review::failures_of(table::views(reviews));
            &&& all.contains(e@) <==> exists|k: int|
                0 <= k < reviews.len() && fails_with(#[trigger] reviews[k], e)
            &&& 0 <= i < j < all.len() ==> !order::before(all[j].handle, all[i].handle)
        }),
{
    let views = table::views(reviews);
    let found = views.map_values(review::failure_of());
    let there = lists::present(found);
    let all = review::failures_of(views);
    let key = review::failure_order();
    known_list_laws::lemma_all_listed(there, key, seq![false], e@);
    lists::lemma_present_members(found);
    assert(there.contains(e@) <==> found.contains(Some(e@)));
    if found.contains(Some(e@)) {
        let k = choose|k: int| 0 <= k < found.len() && found[k] == Some(e@);
        assert(views[k] == reviews[k]@);
        assert(fails_with(reviews[k], e));
    }
    if exists|k: int| 0 <= k < reviews.len() && fails_with(#[trigger] reviews[k], e) {
        let k = choose|k: int| 0 <= k < reviews.len() && fails_with(#[trigger] reviews[k], e);
        assert(views[k] == reviews[k]@);
        assert(found[k] == Some(e@));
    }
    if 0 <= i < j < all.len() {
        list_laws::lemma_chosen_in_order(there, table::always(), key, seq![false], i, j);
        reveal_with_fuel(ranking::key_before, 2);
        assert(key(all[i])[0] == SortView::Text(all[i].handle));
        assert(key(all[j])[0] == SortView::Text(all[j].handle));
        order::lemma_before_irreflexive(all[i].handle);
    }
}

/// The change at `i` is about the creator, and none after it is.
pub open spec fn is_last_about(changes: Seq<ChangeView>, handle: Seq<char>, i: int) -> bool {
    &&& 0 <= i < changes.len()
    &&& handles::normalized_handle(changes[i].handle) == Some(handle)
    &&& forall|j: int|
        i < j < changes.len() ==> handles::normalized_handle((#[trigger] changes[j]).handle)
            != Some(handle)
}

/// Changes are kept where all their handles are valid. A creator then has the
/// language of the last change that is about it, in upper case and without white
/// space around it, or the one it had where none is; nothing else of it changes.
pub proof fn law_kept_changes(
    creators: Seq<CreatorView>,
    changes: Seq<ChangeView>,
    k: int,
    i: int,
)
    requires
        0 <= k < creators.len(),
    ensures
        ({
            let kept = review::applied(creators, changes);
            &&& kept.1 <==> forall|j: int|
                0 <= j < changes.len() ==> handles::normalized_handle(
                    (#[trigger] changes[j]).handle,
                ) is Some
            &&& kept.0.len() == creators.len()
            &&& kept.0[k] == (CreatorView { language_code: kept.0[k].language_code, ..creators[k] })
            &&& kept.1 && is_last_about(changes, creators[k].handle, i)
                ==> kept.0[k].language_code == text::upper(text::trim(changes[i].new_language_code))
            &&& (forall|j: int|
                0 <= j < changes.len() ==> handles::normalized_handle(
                    (#[trigger] changes[j]).handle,
                ) != Some(creators[k].handle)) ==> kept.0[k] == creators[k]
        }),
    decreases changes.len(),
{
    let kept = review::applied(creators, changes);
    let h = creators[k].handle;
    if changes.len() > 0 {
        let rest = changes.drop_last();
        let before = review::applied(creators, rest);
        law_kept_changes(creators, rest, k, i);
        let last = changes.last();
        let n = changes.len() - 1;
        assert(changes[n] == last);
        assert forall|j: int| 0 <= j < n implies rest[j] == #[trigger] changes[j] by {}
        if before.1 {
            assert forall|j: int| 0 <= j < n implies handles::normalized_handle(
                (#[trigger] changes[j]).handle,
            ) is Some by {
                assert(handles::normalized_handle(rest[j].handle) is Some);
            }
        } else {
            let j = choose|j: int|
                0 <= j < rest.len() && handles::normalized_handle((#[trigger] rest[j]).handle)
                    is None;
            assert(handles::normalized_handle(changes[j].handle) is None);
        }
        if is_last_about(changes, h, i) && i < n {
            assert forall|j: int| i < j < rest.len() implies handles::normalized_handle(
                (#[trigger] rest[j]).handle,
            ) != Some(h) by {
                assert(handles::normalized_handle(changes[j].handle) != Some(h));
            }
            assert(is_last_about(rest, h, i));
            assert(handles::normalized_handle(changes[n].handle) != Some(h));
        }
        if forall|j: int|
            0 <= j < changes.len() ==> handles::normalized_handle((#[trigger] changes[j]).handle)
                != Some(h) {
            assert forall|j: int| 0 <= j < rest.len() implies handles::normalized_handle(
                (#[trigger] rest[j]).handle,
            ) != Some(h) by {
                assert(handles::normalized_handle(changes[j].handle) != Some(h));
            }
            assert(handles::normalized_handle(changes[n].handle) != Some(h));
        }
    }
}

} // verus!
