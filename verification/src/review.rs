//! Finding the languages of known creators again.

use vstd::prelude::*;
use crate::db::creators;
use crate::db::filters::DbError;
use crate::db::items::{LanguageReviewCreator, ReviewShown};
use crate::db::rows::{CreatorView, Database, DatabaseView};
use crate::db::table;
use crate::db::table::{EveryRow, RowDisplay, RowKey};
use crate::floating::Real;
use crate::handles;
use crate::lists;
use crate::models::{LanguageClassification, LanguageView};
use crate::ranking;
use crate::ranking::{SortValue, SortView};
use crate::text;

verus! {

/// How many creators are reviewed at once, at most.
pub const MOST_REVIEWS: usize = 20;

/// What a review of one creator came to.
pub enum ReviewResult {
    Found(LanguageClassification),
    Failed(String),
}

/// A creator and what the review came to.
pub struct Review {
    pub creator: LanguageReviewCreator,
    pub result: ReviewResult,
}

/// The mathematical reading of a `Review`.
pub struct ReviewView {
    pub creator: ReviewShown,
    pub found: Result<LanguageView, Seq<char>>,
}

impl View for Review {
    type V = ReviewView;

    open spec fn view(&self) -> ReviewView {
        ReviewView {
            creator: self.creator@,
            found: match self.result {
                ReviewResult::Found(c) => Ok(c@),
                ReviewResult::Failed(error) => Err(error@),
            },
        }
    }
}

/// A language that changes.
pub struct LanguageReclassificationChange {
    pub handle: String,
    pub old_language_code: String,
    pub new_language_code: String,
    pub confidence: Real,
    pub evidence: String,
}

/// The mathematical reading of a `LanguageReclassificationChange`.
pub struct ChangeView {
    pub handle: Seq<char>,
    pub old_language_code: Seq<char>,
    pub new_language_code: Seq<char>,
    pub confidence: Real,
    pub evidence: Seq<char>,
}

impl View for LanguageReclassificationChange {
    type V = ChangeView;

    open spec fn view(&self) -> ChangeView {
        ChangeView {
            handle: self.handle@,
            old_language_code: self.old_language_code@,
            new_language_code: self.new_language_code@,
            confidence: self.confidence,
            evidence: self.evidence@,
        }
    }
}

/// A review that failed.
pub struct LanguageReclassificationError {
    pub handle: String,
    pub error: String,
}

/// The mathematical reading of a `LanguageReclassificationError`.
pub struct FailureView {
    pub handle: Seq<char>,
    pub error: Seq<char>,
}

impl View for LanguageReclassificationError {
    type V = FailureView;

    open spec fn view(&self) -> FailureView {
        FailureView { handle: self.handle@, error: self.error@ }
    }
}

/// What all reviews came to.
pub struct LanguageReclassificationReport {
    pub scanned: usize,
    pub changed: usize,
    pub applied: bool,
    pub errors: Vec<LanguageReclassificationError>,
    pub changes: Vec<LanguageReclassificationChange>,
}

/// The change that a review leads to: none where the language was right.
pub open spec fn change_of() -> spec_fn(ReviewView) -> Option<ChangeView> {
    |r: ReviewView|
        {
            let old_code = text::upper(text::trim(r.creator.language_code));
            match r.found {
                Ok(c) => if old_code != c.language_code {
                    Some(
                        ChangeView {
                            handle: r.creator.handle,
                            old_language_code: old_code,
                            new_language_code: c.language_code,
                            confidence: c.confidence,
                            evidence: c.evidence,
                        },
                    )
                } else {
                    None
                },
                Err(_) => None,
            }
        }
}

/// The failure of a review.
pub open spec fn failure_of() -> spec_fn(ReviewView) -> Option<FailureView> {
    |r: ReviewView|
        match r.found {
            Ok(_) => None,
            Err(error) => Some(FailureView { handle: r.creator.handle, error: error }),
        }
}

pub open spec fn change_order() -> spec_fn(ChangeView) -> Seq<SortView> {
    |c: ChangeView| seq![SortView::Text(c.handle)]
}

pub open spec fn failure_order() -> spec_fn(FailureView) -> Seq<SortView> {
    |f: FailureView| seq![SortView::Text(f.handle)]
}

struct ChangeOrder {}

impl RowKey<LanguageReclassificationChange> for ChangeOrder {
    closed spec fn key(&self) -> spec_fn(ChangeView) -> Seq<SortView> {
        change_order()
    }

    closed spec fn directions(&self) -> Seq<bool> {
        seq![false]
    }

    fn key_of(&self, row: &LanguageReclassificationChange) -> (r: Vec<SortValue>) {
        let r: Vec<SortValue> = vec![SortValue::Text(row.handle.clone())];
        assert(ranking::key_view(r@) =~= change_order()(row@));
        r
    }

    fn descending(&self) -> (r: Vec<bool>) {
        let r: Vec<bool> = vec![false];
        assert(r@ =~= seq![false]);
        r
    }
}

struct FailureOrder {}

impl RowKey<LanguageReclassificationError> for FailureOrder {
    closed spec fn key(&self) -> spec_fn(FailureView) -> Seq<SortView> {
        failure_order()
    }

    closed spec fn directions(&self) -> Seq<bool> {
        seq![false]
    }

    fn key_of(&self, row: &LanguageReclassificationError) -> (r: Vec<SortValue>) {
        let r: Vec<SortValue> = vec![SortValue::Text(row.handle.clone())];
        assert(ranking::key_view(r@) =~= failure_order()(row@));
        r
    }

    fn descending(&self) -> (r: Vec<bool>) {
        let r: Vec<bool> = vec![false];
        assert(r@ =~= seq![false]);
        r
    }
}

pub open spec fn itself<V>() -> spec_fn(V) -> V {
    |v: V| v
}

struct Copied {}

impl RowDisplay<
    LanguageReclassificationChange,
    LanguageReclassificationChange,
> for Copied {
    closed spec fn shown(&self) -> spec_fn(ChangeView) -> ChangeView {
        itself()
    }

    fn show(&self, row: &LanguageReclassificationChange) -> (r: LanguageReclassificationChange) {
        LanguageReclassificationChange {
            handle: row.handle.clone(),
            old_language_code: row.old_language_code.clone(),
            new_language_code: row.new_language_code.clone(),
            confidence: row.confidence,
            evidence: row.evidence.clone(),
        }
    }
}

impl RowDisplay<LanguageReclassificationError, LanguageReclassificationError> for Copied {
    closed spec fn shown(&self) -> spec_fn(FailureView) -> FailureView {
        itself()
    }

    fn show(&self, row: &LanguageReclassificationError) -> (r: LanguageReclassificationError) {
        LanguageReclassificationError { handle: row.handle.clone(), error: row.error.clone() }
    }
}

/// All changes, by handle.
pub open spec fn changes_of(reviews: Seq<ReviewView>) -> Seq<ChangeView> {
    table::chosen(
        lists::present(reviews.map_values(change_of())),
        table::always(),
        change_order(),
        seq![false],
    )
}

/// All failures, by handle.
pub open spec fn failures_of(reviews: Seq<ReviewView>) -> Seq<FailureView> {
    table::chosen(
        lists::present(reviews.map_values(failure_of())),
        table::always(),
        failure_order(),
        seq![false],
    )
}

/// Reports what all reviews came to.
pub fn report(reviews: &Vec<Review>, apply: bool) -> (r: LanguageReclassificationReport)
    ensures
        r.scanned == reviews@.len(),
        r.changed == r.changes@.len(),
        r.applied == apply,
        table::views(r.changes@) == changes_of(table::views(reviews@)),
        table::views(r.errors@) == failures_of(table::views(reviews@)),
{
    let ghost all = table::views(reviews@);
    let ghost wanted = all.map_values(change_of());
    let ghost lost = all.map_values(failure_of());
    let mut changes: Vec<LanguageReclassificationChange> = Vec::new();
    let mut errors: Vec<LanguageReclassificationError> = Vec::new();
    let mut i: usize = 0;
    proof {
        assert(table::views(changes@) =~= lists::present(wanted.take(0)));
        assert(table::views(errors@) =~= lists::present(lost.take(0)));
    }
    while i < reviews.len()
        invariant
            i <= reviews@.len(),
            all == table::views(reviews@),
            wanted == all.map_values(change_of()),
            lost == all.map_values(failure_of()),
            table::views(changes@) == lists::present(wanted.take(i as int)),
            table::views(errors@) == lists::present(lost.take(i as int)),
        decreases reviews@.len() - i,
    {
        let ghost before = changes@;
        let ghost before_errors = errors@;
        proof {
            assert(all[i as int] == reviews@[i as int]@);
            assert(wanted.take(i + 1) =~= wanted.take(i as int).push(wanted[i as int]));
            assert(lost.take(i + 1) =~= lost.take(i as int).push(lost[i as int]));
            lists::lemma_present_push(wanted.take(i as int), wanted[i as int]);
            lists::lemma_present_push(lost.take(i as int), lost[i as int]);
        }
        let creator: &LanguageReviewCreator = &reviews[i].creator;
        match &reviews[i].result {
            ReviewResult::Found(c) => {
                let trimmed: String = text::trim_of(creator.language_code.as_str());
                let old_code: String = text::to_upper(trimmed.as_str());
                if !text::same(old_code.as_str(), c.language_code.as_str()) {
                    let change: LanguageReclassificationChange = LanguageReclassificationChange {
                        handle: creator.handle.clone(),
                        old_language_code: old_code,
                        new_language_code: c.language_code.clone(),
                        confidence: c.confidence,
                        evidence: c.evidence.clone(),
                    };
                    changes.push(change);
                    assert(table::views(changes@) =~= table::views(before).push(change@));
                }
            },
            ReviewResult::Failed(error) => {
                let failure: LanguageReclassificationError = LanguageReclassificationError {
                    handle: creator.handle.clone(),
                    error: error.clone(),
                };
                errors.push(failure);
                assert(table::views(errors@) =~= table::views(before_errors).push(failure@));
            },
        }
        i = i + 1;
    }
    proof {
        assert(wanted.take(i as int) =~= wanted);
        assert(lost.take(i as int) =~= lost);
        table::lemma_whole_page(
            table::views(changes@),
            table::always(),
            change_order(),
            seq![false],
            changes@.len(),
        );
        table::lemma_whole_page(
            table::views(errors@),
            table::always(),
            failure_order(),
            seq![false],
            errors@.len(),
        );
    }
    let sorted: Vec<LanguageReclassificationChange> = table::list_rows(
        &changes,
        &EveryRow {  },
        &ChangeOrder {  },
        &Copied {  },
        changes.len(),
        0,
    );
    let sorted_errors: Vec<LanguageReclassificationError> = table::list_rows(
        &errors,
        &EveryRow {  },
        &FailureOrder {  },
        &Copied {  },
        errors.len(),
        0,
    );
    proof {
        let a = changes_of(all);
        let b = failures_of(all);
        assert(a.map_values(itself()) =~= a);
        assert(b.map_values(itself()) =~= b);
    }
    let changed: usize = sorted.len();
    LanguageReclassificationReport {
        scanned: reviews.len(),
        changed,
        applied: apply,
        errors: sorted_errors,
        changes: sorted,
    }
}

/// Every creator that was reviewed kept its language, changed it, or failed.
pub proof fn law_reviews_are_accounted_for(r: ReviewView)
    ensures
        change_of()(r) is Some ==> failure_of()(r) is None,
        failure_of()(r) is Some ==> change_of()(r) is None,
        change_of()(r) is None && failure_of()(r) is None ==> (r.found matches Ok(c)
            && c.language_code == text::upper(text::trim(r.creator.language_code))),
{
}

// ---------------------------------------------------------------------------
// Keeping the changes
// ---------------------------------------------------------------------------
/// The creators after the changes were kept one after another, and whether all
/// of them were: the first whose handle is not valid ends it.
pub open spec fn applied(creators: Seq<CreatorView>, changes: Seq<ChangeView>) -> (
    Seq<CreatorView>,
    bool,
)
    decreases changes.len(),
{
    if changes.len() == 0 {
        (creators, true)
    } else {
        let before = applied(creators, changes.drop_last());
        let last = changes.last();
        if !before.1 {
            before
        } else {
            match handles::normalized_handle(last.handle) {
                Some(h) => (
                    before.0.map_values(
                        creators::speaking(h, text::upper(text::trim(last.new_language_code))),
                    ),
                    true,
                ),
                None => (before.0, false),
            }
        }
    }
}

proof fn lemma_applied_ends(creators: Seq<CreatorView>, changes: Seq<ChangeView>, n: int)
    requires
        0 <= n <= changes.len(),
        !applied(creators, changes.take(n)).1,
    ensures
        applied(creators, changes) == applied(creators, changes.take(n)),
    decreases changes.len(),
{
    if n == changes.len() {
        assert(changes.take(n) =~= changes);
    } else {
        let rest = changes.drop_last();
        assert(rest.take(n) =~= changes.take(n));
        lemma_applied_ends(creators, rest, n);
    }
}

/// Keeps the changes one after another.
pub fn apply_changes(db: &mut Database, changes: &Vec<LanguageReclassificationChange>) -> (r: Result<
    (),
    DbError,
>)
    requires
        old(db)@.wf(),
    ensures
        final(db)@.wf(),
        final(db)@ == (DatabaseView {
            creators: applied(old(db)@.creators, table::views(changes@)).0,
            ..old(db)@
        }),
        r == if applied(old(db)@.creators, table::views(changes@)).1 {
            Ok::<(), DbError>(())
        } else {
            Err::<(), DbError>(DbError::InvalidHandle)
        },
{
    let ghost start = db@;
    let ghost all = table::views(changes@);
    let mut i: usize = 0;
    assert(all.take(0) =~= Seq::<ChangeView>::empty());
    while i < changes.len()
        invariant
            i <= changes@.len(),
            all == table::views(changes@),
            db@.wf(),
            applied(start.creators, all.take(i as int)).1,
            db@ == (DatabaseView {
                creators: applied(start.creators, all.take(i as int)).0,
                ..start
            }),
            start == old(db)@,
        decreases changes@.len() - i,
    {
        proof {
            assert(all.take(i + 1).drop_last() =~= all.take(i as int));
            assert(all.take(i + 1).last() == changes@[i as int]@);
        }
        match db.update_creator_language(
            changes[i].handle.as_str(),
            changes[i].new_language_code.as_str(),
        ) {
            Ok(()) => {},
            Err(error) => {
                proof {
                    lemma_applied_ends(start.creators, all, i + 1);
                }
                return Err(error);
            },
        }
        i = i + 1;
    }
    assert(all.take(i as int) =~= all);
    Ok(())
}

} // verus!
