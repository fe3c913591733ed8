//! What holds of the conversion queue across its operations.
use vstd::prelude::*;
use vstd::seq_lib::{to_multiset_insert, to_multiset_build};
use crate::queue::{
    QueueItem, QueueItemStatus, runs_before, insertion_point, priority_order, in_priority_order, count_status,
    paused, resumed, paused_all, resumed_all, unfinished, without_id, unfinished_only, cancelled_all,
};

verus! {

/// Where an item is inserted: after every item it does not run before, and before
/// the first one it does.
pub proof fn lemma_insertion_point(t: Seq<QueueItem>, x: QueueItem)
    ensures
        0 <= insertion_point(t, x) <= t.len(),
        forall|k: int| 0 <= k < insertion_point(t, x) ==> !runs_before(x, #[trigger] t[k]),
        insertion_point(t, x) < t.len() ==> runs_before(x, t[insertion_point(t, x)]),
    decreases t.len(),
{
    if t.len() > 0 && !runs_before(x, t[0]) {
        lemma_insertion_point(t.drop_first(), x);
        assert forall|k: int| 0 <= k < insertion_point(t, x) implies !runs_before(x, #[trigger] t[k]) by {
            if k > 0 {
                assert(t[k] == t.drop_first()[k - 1]);
            }
        }
        if insertion_point(t, x) < t.len() {
            assert(t[insertion_point(t, x)] == t.drop_first()[insertion_point(t.drop_first(), x)]);
        }
    }
}

proof fn lemma_insertion_point_end(t: Seq<QueueItem>, x: QueueItem)
    requires
        forall|k: int| 0 <= k < t.len() ==> !runs_before(x, #[trigger] t[k]),
    ensures
        insertion_point(t, x) == t.len(),
    decreases t.len(),
{
    if t.len() > 0 {
        let u = t.drop_first();
        assert forall|k: int| 0 <= k < u.len() implies !runs_before(x, #[trigger] u[k]) by {
            assert(u[k] == t[k + 1]);
        }
        assert(!runs_before(x, t[0]));
        lemma_insertion_point_end(u, x);
    }
}

/// A queue already in priority order is its own priority order.
pub proof fn lemma_priority_order_of_ordered(u: Seq<QueueItem>)
    requires
        in_priority_order(u),
    ensures
        priority_order(u) == u,
    decreases u.len(),
{
    if u.len() > 0 {
        let t = u.drop_last();
        assert forall|i: int, j: int| 0 <= i < j < t.len() implies !runs_before(#[trigger] t[j], #[trigger] t[i]) by {
            assert(t[i] == u[i] && t[j] == u[j]);
        }
        lemma_priority_order_of_ordered(t);
        assert forall|k: int| 0 <= k < t.len() implies !runs_before(u.last(), #[trigger] t[k]) by {
            assert(t[k] == u[k]);
        }
        lemma_insertion_point_end(t, u.last());
        assert(t.insert(t.len() as int, u.last()) =~= u);
    }
}

/// Putting an item into a queue already in its priority order gives the priority order
/// of the queue with the item added: adding items one at a time and ordering each time
/// is ordering them all at once.
pub proof fn law_push_then_order(s: Seq<QueueItem>, x: QueueItem)
    ensures
        priority_order(priority_order(s).push(x)) == priority_order(s.push(x)),
{
    law_priority_order_sorted(s);
    lemma_priority_order_of_ordered(priority_order(s));
    assert(priority_order(s).push(x).drop_last() =~= priority_order(s));
    assert(s.push(x).drop_last() =~= s);
}

/// The queue order is sorted: no item runs before an item ahead of it.
pub proof fn law_priority_order_sorted(s: Seq<QueueItem>)
    ensures
        in_priority_order(priority_order(s)),
        priority_order(s).len() == s.len(),
    decreases s.len(),
{
    if s.len() > 0 {
        let t = priority_order(s.drop_last());
        let x = s.last();
        law_priority_order_sorted(s.drop_last());
        lemma_insertion_point(t, x);
        let p = insertion_point(t, x);
        let u = t.insert(p, x);
        assert(u == priority_order(s));
        assert forall|i: int, j: int| 0 <= i < j < u.len() implies !runs_before(#[trigger] u[j], #[trigger] u[i]) by {
            if j < p {
                assert(u[i] == t[i] && u[j] == t[j]);
            } else if j == p {
                assert(u[i] == t[i]);
            } else if i < p {
                assert(u[i] == t[i] && u[j] == t[j - 1]);
            } else if i == p {
                assert(u[j] == t[j - 1]);
                if j - 1 > p {
                    assert(!runs_before(t[j - 1], t[p]));
                }
            } else {
                assert(u[i] == t[i - 1] && u[j] == t[j - 1]);
            }
        }
    }
}

/// The queue order holds exactly the items it was given.
pub proof fn law_priority_order_permutes(s: Seq<QueueItem>)
    ensures
        priority_order(s).to_multiset() == s.to_multiset(),
    decreases s.len(),
{
    if s.len() > 0 {
        let t = priority_order(s.drop_last());
        law_priority_order_permutes(s.drop_last());
        law_priority_order_sorted(s.drop_last());
        lemma_insertion_point(t, s.last());
        to_multiset_insert(t, insertion_point(t, s.last()), s.last());
        to_multiset_build(s.drop_last(), s.last());
        assert(s.drop_last().push(s.last()) =~= s);
    }
}

/// After an item is pushed, the queue is in order and holds the item along with
/// everything it held before.
pub proof fn law_push_keeps_queue_ordered(items: Seq<QueueItem>, item: QueueItem)
    ensures
        in_priority_order(priority_order(items.push(item))),
        priority_order(items.push(item)).to_multiset() == items.to_multiset().insert(item),
        priority_order(items.push(item)).contains(item),
{
    law_priority_order_sorted(items.push(item));
    law_priority_order_permutes(items.push(item));
    to_multiset_build(items, item);
    let u = priority_order(items.push(item));
    vstd::seq_lib::to_multiset_contains(u, item);
}

/// Counting one more item adds one to its status's count and nothing to the others.
pub proof fn lemma_count_push(s: Seq<QueueItem>, x: QueueItem, st: QueueItemStatus)
    ensures
        count_status(s.push(x), st) == count_status(s, st) + (if x.status == st { 1nat } else { 0nat }),
{
    s.lemma_filter_push(x, |i: QueueItem| i.status == st);
}

/// The per-status counts of the statistics never add up to more than the total.
pub proof fn law_stats_within_total(s: Seq<QueueItem>)
    ensures
        count_status(s, QueueItemStatus::Pending) + count_status(s, QueueItemStatus::Converting) + count_status(
            s,
            QueueItemStatus::Completed,
        ) + count_status(s, QueueItemStatus::Failed) + count_status(s, QueueItemStatus::Cancelled) + count_status(
            s,
            QueueItemStatus::Paused,
        ) <= s.len(),
    decreases s.len(),
{
    if s.len() == 0 {
        reveal_with_fuel(Seq::filter, 1);
        assert(count_status(s, QueueItemStatus::Pending) == 0);
        assert(count_status(s, QueueItemStatus::Converting) == 0);
        assert(count_status(s, QueueItemStatus::Completed) == 0);
        assert(count_status(s, QueueItemStatus::Failed) == 0);
        assert(count_status(s, QueueItemStatus::Cancelled) == 0);
        assert(count_status(s, QueueItemStatus::Paused) == 0);
    } else {
        let t = s.drop_last();
        let x = s.last();
        law_stats_within_total(t);
        assert(t.push(x) =~= s);
        lemma_count_push(t, x, QueueItemStatus::Pending);
        lemma_count_push(t, x, QueueItemStatus::Converting);
        lemma_count_push(t, x, QueueItemStatus::Completed);
        lemma_count_push(t, x, QueueItemStatus::Failed);
        lemma_count_push(t, x, QueueItemStatus::Cancelled);
        lemma_count_push(t, x, QueueItemStatus::Paused);
    }
}

/// Pausing everything leaves nothing converting: the converting items join the paused ones.
pub proof fn law_pause_all_stops_conversions(s: Seq<QueueItem>)
    ensures
        count_status(paused_all(s), QueueItemStatus::Converting) == 0,
        count_status(paused_all(s), QueueItemStatus::Paused) == count_status(s, QueueItemStatus::Paused)
            + count_status(s, QueueItemStatus::Converting),
        count_status(paused_all(s), QueueItemStatus::Pending) == count_status(s, QueueItemStatus::Pending),
    decreases s.len(),
{
    if s.len() == 0 {
        reveal_with_fuel(Seq::filter, 1);
        assert(paused_all(s) =~= s);
    } else {
        let t = s.drop_last();
        let x = s.last();
        law_pause_all_stops_conversions(t);
        assert(t.push(x) =~= s);
        assert(paused_all(s) =~= paused_all(t).push(paused(x)));
        lemma_count_push(paused_all(t), paused(x), QueueItemStatus::Converting);
        lemma_count_push(paused_all(t), paused(x), QueueItemStatus::Paused);
        lemma_count_push(paused_all(t), paused(x), QueueItemStatus::Pending);
        lemma_count_push(t, x, QueueItemStatus::Converting);
        lemma_count_push(t, x, QueueItemStatus::Paused);
        lemma_count_push(t, x, QueueItemStatus::Pending);
    }
}

/// Resuming everything leaves nothing paused: the paused items become pending.
pub proof fn law_resume_all_clears_pauses(s: Seq<QueueItem>)
    ensures
        count_status(resumed_all(s), QueueItemStatus::Paused) == 0,
        count_status(resumed_all(s), QueueItemStatus::Pending) == count_status(s, QueueItemStatus::Pending)
            + count_status(s, QueueItemStatus::Paused),
    decreases s.len(),
{
    if s.len() == 0 {
        reveal_with_fuel(Seq::filter, 1);
        assert(resumed_all(s) =~= s);
    } else {
        let t = s.drop_last();
        let x = s.last();
        law_resume_all_clears_pauses(t);
        assert(t.push(x) =~= s);
        assert(resumed_all(s) =~= resumed_all(t).push(resumed(x)));
        lemma_count_push(resumed_all(t), resumed(x), QueueItemStatus::Paused);
        lemma_count_push(resumed_all(t), resumed(x), QueueItemStatus::Pending);
        lemma_count_push(t, x, QueueItemStatus::Paused);
        lemma_count_push(t, x, QueueItemStatus::Pending);
    }
}

/// Pausing and then resuming every item puts every converting or paused item back
/// to pending and leaves the others alone.
pub proof fn law_pause_then_resume(s: Seq<QueueItem>)
    ensures
        resumed_all(paused_all(s)).len() == s.len(),
        forall|k: int| 0 <= k < s.len() ==> #[trigger] resumed_all(paused_all(s))[k] == (if s[k].status
            == QueueItemStatus::Converting || s[k].status == QueueItemStatus::Paused {
            QueueItem { status: QueueItemStatus::Pending, ..s[k] }
        } else {
            s[k]
        }),
{
}

/// After `cancel_all`, nothing waits and nothing runs.
pub proof fn law_cancel_all_leaves_nothing_active(old_items: Seq<QueueItem>, new_items: Seq<QueueItem>)
    requires
        cancelled_all(old_items, new_items),
    ensures
        count_status(new_items, QueueItemStatus::Pending) == 0,
        count_status(new_items, QueueItemStatus::Converting) == 0,
    decreases old_items.len(),
{
    if old_items.len() == 0 {
        reveal_with_fuel(Seq::filter, 1);
        assert(new_items.len() == 0);
    } else {
        let t = old_items.drop_last();
        let u = new_items.drop_last();
        assert forall|k: int| 0 <= k < t.len() implies {
            let a = t[k];
            let b = #[trigger] u[k];
            if a.status == QueueItemStatus::Pending || a.status == QueueItemStatus::Converting {
                b.status == QueueItemStatus::Cancelled && (b.completed_at matches Some(tt) ==> tt.wf()) && b == (QueueItem {
                    status: b.status,
                    completed_at: b.completed_at,
                    ..a
                })
            } else {
                b == a
            }
        } by {
            assert(t[k] == old_items[k] && u[k] == new_items[k]);
        }
        law_cancel_all_leaves_nothing_active(t, u);
        assert(u.push(new_items.last()) =~= new_items);
        assert(new_items.last() == new_items[new_items.len() - 1]);
        lemma_count_push(u, new_items.last(), QueueItemStatus::Pending);
        lemma_count_push(u, new_items.last(), QueueItemStatus::Converting);
    }
}

/// After removing an identifier, no item carries it.
pub proof fn law_remove_forgets_id(s: Seq<QueueItem>, id: u128)
    ensures
        forall|k: int| 0 <= k < without_id(s, id).len() ==> (#[trigger] without_id(s, id)[k]).id != id,
{
    assert forall|k: int| 0 <= k < without_id(s, id).len() implies (#[trigger] without_id(s, id)[k]).id != id by {
        s.lemma_filter_pred(|i: QueueItem| i.id != id, k);
    }
}

/// Clearing finished items leaves only unfinished ones, and a second clear changes nothing.
pub proof fn law_clear_finished(s: Seq<QueueItem>)
    ensures
        forall|k: int| 0 <= k < unfinished_only(s).len() ==> unfinished(#[trigger] unfinished_only(s)[k]),
        unfinished_only(unfinished_only(s)) == unfinished_only(s),
{
    let f = unfinished_only(s);
    assert forall|k: int| 0 <= k < f.len() implies unfinished(#[trigger] f[k]) by {
        s.lemma_filter_pred(|i: QueueItem| unfinished(i), k);
    }
    lemma_filter_all_kept(f);
}

proof fn lemma_filter_all_kept(f: Seq<QueueItem>)
    requires
        forall|k: int| 0 <= k < f.len() ==> unfinished(#[trigger] f[k]),
    ensures
        unfinished_only(f) == f,
    decreases f.len(),
{
    reveal_with_fuel(Seq::filter, 1);
    if f.len() > 0 {
        let t = f.drop_last();
        assert forall|k: int| 0 <= k < t.len() implies unfinished(#[trigger] t[k]) by {
            assert(t[k] == f[k]);
        }
        lemma_filter_all_kept(t);
        assert(unfinished(f[f.len() - 1]));
        assert(unfinished_only(f) =~= f);
    }
}

} // verus!
