//! View statistics of a creator's posts.

use vstd::prelude::*;
use crate::models;
use crate::models::{Average, CreatorStats, Middle, PostView, TiktokPost};

verus! {

/// The view counts of the posts.
pub open spec fn views_of(posts: Seq<PostView>) -> Seq<u64> {
    posts.map_values(|p: PostView| p.views)
}

/// The sum of the counts.
pub open spec fn total(views: Seq<u64>) -> nat
    decreases views.len(),
{
    if views.len() == 0 {
        0
    } else {
        total(views.drop_last()) + views.last() as nat
    }
}

pub open spec fn at_most() -> spec_fn(u64, u64) -> bool {
    |a: u64, b: u64| a <= b
}

/// The counts in ascending order.
pub open spec fn in_order(views: Seq<u64>) -> Seq<u64> {
    views.sort_by(at_most())
}

/// The two values in the middle of an ordered list that is not empty; the same
/// one twice where the length is odd.
pub open spec fn middle(sorted: Seq<u64>) -> Middle {
    Middle {
        low: sorted[(sorted.len() - 1) / 2],
        high: sorted[sorted.len() as int / 2],
    }
}

/// `i` is the last of the positions that hold the greatest count.
pub open spec fn last_greatest(views: Seq<u64>, i: int) -> bool {
    &&& 0 <= i < views.len()
    &&& forall|j: int| 0 <= j < views.len() ==> #[trigger] views[j] <= views[i]
    &&& forall|j: int| i < j < views.len() ==> #[trigger] views[j] < views[i]
}

/// The statistics are those of the posts.
pub open spec fn are_stats_of(stats: CreatorStats, posts: Seq<PostView>) -> bool {
    let views = views_of(posts);
    if posts.len() == 0 {
        &&& stats.avg_views == (Average { total: 0, count: 0 })
        &&& stats.median_views == (Middle { low: 0, high: 0 })
        &&& stats.most_viral_video_url is None
        &&& stats.most_viral_video_views is None
    } else {
        &&& stats.avg_views.total == total(views)
        &&& stats.avg_views.count == posts.len()
        &&& stats.median_views == middle(in_order(views))
        &&& exists|i: int|
            {
                &&& #[trigger] last_greatest(views, i)
                &&& models::opt_text(stats.most_viral_video_url) == Some(posts[i].url)
                &&& stats.most_viral_video_views == Some(posts[i].views)
            }
    }
}

proof fn lemma_at_most()
    ensures
        vstd::relations::total_ordering(at_most()),
{
}

proof fn lemma_total_grows(views: Seq<u64>, i: int)
    requires
        0 <= i <= views.len(),
    ensures
        total(views.take(i)) <= total(views),
    decreases views.len(),
{
    if i < views.len() {
        lemma_total_grows(views.drop_last(), i);
        assert(views.drop_last().take(i) =~= views.take(i));
    } else {
        assert(views.take(i) =~= views);
    }
}

/// Adds one count to an ordered list.
fn insert_sorted(sorted: &mut Vec<u64>, x: u64)
    requires
        vstd::relations::sorted_by(old(sorted)@, at_most()),
    ensures
        vstd::relations::sorted_by(final(sorted)@, at_most()),
        final(sorted)@.to_multiset() == old(sorted)@.to_multiset().insert(x),
{
    let mut at: usize = sorted.len();
    while at > 0 && sorted[at - 1] > x
        invariant
            at <= sorted@.len(),
            sorted@ == old(sorted)@,
            forall|j: int| at <= j < sorted@.len() ==> sorted@[j] > x,
        decreases at,
    {
        at = at - 1;
    }
    let ghost before = sorted@;
    sorted.insert(at, x);
    proof {
        broadcast use vstd::seq_lib::group_to_multiset_ensures;

        assert(sorted@ == before.insert(at as int, x));
        assert forall|i: int, j: int| 0 <= i < j < sorted@.len() implies at_most()(
            #[trigger] sorted@[i],
            #[trigger] sorted@[j],
        ) by {
            let a = if i < at {
                i
            } else {
                i - 1
            };
            let b = if j < at {
                j
            } else {
                j - 1
            };
            if i != at && j != at {
                assert(at_most()(before[a], before[b]));
            } else if j == at && at > 0 {
                assert(i <= at - 1);
                if i < at - 1 {
                    assert(at_most()(before[i], before[at - 1]));
                }
            }
        }
    }
}

/// The statistics of the posts.
pub fn calculate_creator_stats(posts: &Vec<TiktokPost>) -> (r: CreatorStats)
    requires
        total(views_of(models::post_views(posts@))) <= u64::MAX,
    ensures
        are_stats_of(r, models::post_views(posts@)),
{
    let ghost all = models::post_views(posts@);
    let ghost views = views_of(all);
    if posts.len() == 0 {
        return CreatorStats {
            avg_views: Average { total: 0, count: 0 },
            median_views: Middle { low: 0, high: 0 },
            most_viral_video_url: None,
            most_viral_video_views: None,
        };
    }
    let mut sorted: Vec<u64> = Vec::new();
    let mut sum: u64 = 0;
    let mut best: usize = 0;
    let mut i: usize = 0;
    proof {
        assert(views.take(0) =~= sorted@);
    }
    while i < posts.len()
        invariant
            i <= posts@.len(),
            posts@.len() > 0,
            all == models::post_views(posts@),
            views == views_of(all),
            total(views) <= u64::MAX,
            sum == total(views.take(i as int)),
            vstd::relations::sorted_by(sorted@, at_most()),
            sorted@.to_multiset() == views.take(i as int).to_multiset(),
            i == 0 ==> best == 0,
            i > 0 ==> last_greatest(views.take(i as int), best as int),
        decreases posts@.len() - i,
    {
        let x: u64 = posts[i].views;
        let ghost seen = views.take(i as int);
        let ghost next = views.take(i + 1);
        proof {
            broadcast use vstd::seq_lib::group_to_multiset_ensures;

            assert(views[i as int] == x);
            assert(next =~= seen.push(x));
            assert(next.drop_last() =~= seen);
            lemma_total_grows(views, i + 1);
            assert(seen.push(x).to_multiset() =~= seen.to_multiset().insert(x));
        }
        insert_sorted(&mut sorted, x);
        sum = sum + x;
        if i == 0 || x >= posts[best].views {
            proof {
                assert forall|j: int| 0 <= j < next.len() implies #[trigger] next[j] <= x by {
                    if j < i {
                        assert(next[j] == seen[j]);
                        assert(seen[j] <= seen[best as int]);
                        assert(seen[best as int] == posts@[best as int].views);
                    }
                }
            }
            best = i;
        } else {
            proof {
                assert(seen[best as int] == posts@[best as int].views);
                assert forall|j: int| 0 <= j < next.len() implies #[trigger] next[j]
                    <= next[best as int] by {
                    if j < i {
                        assert(next[j] == seen[j]);
                    }
                }
                assert forall|j: int| best < j < next.len() implies #[trigger] next[j]
                    < next[best as int] by {
                    if j < i {
                        assert(next[j] == seen[j]);
                    }
                }
            }
        }
        i = i + 1;
    }
    proof {
        broadcast use vstd::seq_lib::group_to_multiset_ensures;

        assert(views.take(i as int) =~= views);
        lemma_at_most();
        views.lemma_sort_by_ensures(at_most());
        vstd::seq_lib::lemma_sorted_unique(sorted@, in_order(views), at_most());
        assert(sorted@.to_multiset().len() == views.to_multiset().len());
        assert(sorted@.len() == views.len());
        assert(last_greatest(views, best as int));
        assert(all[best as int] == posts@[best as int]@);
    }
    let low: u64 = sorted[(sorted.len() - 1) / 2];
    let high: u64 = sorted[sorted.len() / 2];
    CreatorStats {
        avg_views: Average { total: sum, count: posts.len() },
        median_views: Middle { low: low, high: high },
        most_viral_video_url: Some(posts[best].url.clone()),
        most_viral_video_views: Some(posts[best].views),
    }
}

proof fn lemma_total_bounds(views: Seq<u64>, low: u64, high: u64)
    requires
        forall|i: int| 0 <= i < views.len() ==> low <= #[trigger] views[i] <= high,
    ensures
        low * views.len() <= total(views) <= high * views.len(),
    decreases views.len(),
{
    if views.len() > 0 {
        let rest = views.drop_last();
        assert forall|i: int| 0 <= i < rest.len() implies low <= #[trigger] rest[i] <= high by {
            assert(rest[i] == views[i]);
        }
        lemma_total_bounds(rest, low, high);
        assert(low <= views[views.len() - 1] <= high);
        let n = rest.len();
        assert(low * (n + 1) == low * n + low) by (nonlinear_arith);
        assert(high * (n + 1) == high * n + high) by (nonlinear_arith);
    }
}

/// The middle values are counts of posts; no post is seen more often than the
/// most viral one, which bounds the average and both middle values.
pub proof fn law_stats_within_counts(stats: CreatorStats, posts: Seq<PostView>)
    requires
        are_stats_of(stats, posts),
        posts.len() > 0,
    ensures
        stats.most_viral_video_views is Some,
        forall|i: int|
            0 <= i < posts.len() ==> (#[trigger] posts[i]).views
                <= stats.most_viral_video_views->0,
        views_of(posts).contains(stats.most_viral_video_views->0),
        views_of(posts).contains(stats.median_views.low),
        views_of(posts).contains(stats.median_views.high),
        stats.median_views.low <= stats.median_views.high <= stats.most_viral_video_views->0,
        stats.avg_views.total <= stats.most_viral_video_views->0 * stats.avg_views.count,
{
    broadcast use vstd::seq_lib::group_to_multiset_ensures;

    let views = views_of(posts);
    let i = choose|i: int|
        {
            &&& #[trigger] last_greatest(views, i)
            &&& models::opt_text(stats.most_viral_video_url) == Some(posts[i].url)
            &&& stats.most_viral_video_views == Some(posts[i].views)
        };
    assert(views[i] == posts[i].views);
    lemma_at_most();
    views.lemma_sort_by_ensures(at_most());
    let sorted = in_order(views);
    assert(sorted.to_multiset().len() == views.to_multiset().len());
    assert(sorted.len() == views.len());
    let a = (sorted.len() - 1) / 2;
    let b = sorted.len() as int / 2;
    assert(sorted.contains(sorted[a]));
    assert(sorted.contains(sorted[b]));
    if a < b {
        assert(at_most()(sorted[a], sorted[b]));
    }
    assert(views.contains(sorted[b]));
    let k = choose|k: int| 0 <= k < views.len() && views[k] == sorted[b];
    assert(views[k] <= views[i]);
    assert forall|j: int| 0 <= j < posts.len() implies (#[trigger] posts[j]).views
        <= stats.most_viral_video_views->0 by {
        assert(views[j] <= views[i]);
    }
    lemma_total_bounds(views, 0, views[i]);
}

} // verus!
