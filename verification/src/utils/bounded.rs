//! Bounded queues: the trimming rules of the console log, the console
//! history and the rollback history.

use vstd::prelude::*;
use std::collections::VecDeque;

verus! {

/// The last `max` items of `s` (all of them when there are fewer).
pub open spec fn keep_last<T>(s: Seq<T>, max: nat) -> Seq<T> {
    if s.len() <= max {
        s
    } else {
        s.subrange(s.len() - max, s.len() as int)
    }
}

/// A queue trimmed by `keep_last` holds at most `max` items, and its newest
/// items are kept in order: the last item of `s` stays last when `max > 0`.
pub proof fn lemma_keep_last_bounded<T>(s: Seq<T>, max: nat)
    ensures
        keep_last(s, max).len() == if s.len() <= max { s.len() } else { max },
        forall|i: int| 0 <= i < keep_last(s, max).len()
            ==> #[trigger] keep_last(s, max)[i] == s[s.len() - keep_last(s, max).len() + i],
        max > 0 && s.len() > 0 ==> keep_last(s, max).last() == s.last(),
{
}

/// Trimming after each push is trimming once at the end: the last `max`
/// items do not depend on what was dropped earlier.
pub proof fn lemma_keep_last_push<T>(s: Seq<T>, x: T, max: nat)
    ensures
        keep_last(keep_last(s, max).push(x), max) == keep_last(s.push(x), max),
{
    let k = keep_last(s, max);
    lemma_keep_last_bounded(s, max);
    lemma_keep_last_bounded(k.push(x), max);
    lemma_keep_last_bounded(s.push(x), max);
    let a = keep_last(k.push(x), max);
    let b = keep_last(s.push(x), max);
    assert(a.len() == b.len());
    assert forall|i: int| 0 <= i < a.len() implies a[i] == b[i] by {
        let ia = k.len() + 1 - a.len() + i;
        let ib = s.len() + 1 - b.len() + i;
        assert(a[i] == k.push(x)[ia]);
        assert(b[i] == s.push(x)[ib]);
        if ia < k.len() {
            assert(k[ia] == s[s.len() - k.len() + ia]);
        }
    }
    assert(a =~= b);
}

/// Trimming commutes with mapping each item.
pub proof fn lemma_keep_last_map<T, U>(s: Seq<T>, f: spec_fn(T) -> U, max: nat)
    ensures
        keep_last(s, max).map_values(f) == keep_last(s.map_values(f), max),
{
    lemma_keep_last_bounded(s, max);
    lemma_keep_last_bounded(s.map_values(f), max);
    assert(keep_last(s, max).map_values(f) =~= keep_last(s.map_values(f), max));
}

/// What `push_front_bounded` leaves: `item` in front, and the back item
/// dropped when there are more than `max`.
pub open spec fn push_front_kept<T>(s: Seq<T>, item: T, max: nat) -> Seq<T> {
    if s.len() + 1 > max {
        (seq![item] + s).drop_last()
    } else {
        seq![item] + s
    }
}

/// Appends `item` at the back, then drops items from the front while there
/// are more than `max`.
pub fn push_back_bounded<T>(queue: &mut VecDeque<T>, item: T, max: usize)
    ensures
        final(queue)@ == keep_last(old(queue)@.push(item), max as nat),
{
    broadcast use vstd::std_specs::vecdeque::group_vec_dequeue_axioms;
    queue.push_back(item);
    let ghost full = old(queue)@.push(item);
    while queue.len() > max
        invariant
            full == old(queue)@.push(item),
            queue@.len() >= max ==> queue@ == keep_last(full, queue@.len()),
            queue@.len() < max ==> queue@ == full,
            full.len() <= max ==> queue@ == full,
        decreases queue@.len(),
    {
        let _ = queue.pop_front();
    }
    proof {
        if full.len() > max {
            assert(queue@ == keep_last(full, max as nat));
        }
    }
}

/// Puts `item` at the front, then drops the back item if there are more
/// than `max` (one item at most is dropped).
pub fn push_front_bounded<T>(queue: &mut VecDeque<T>, item: T, max: usize)
    ensures
        final(queue)@ == push_front_kept(old(queue)@, item, max as nat),
{
    broadcast use vstd::std_specs::vecdeque::group_vec_dequeue_axioms;
    queue.push_front(item);
    if queue.len() > max {
        let _ = queue.pop_back();
    }
}

} // verus!
