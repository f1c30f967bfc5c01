use vstd::prelude::*;

use crate::response::{UrlResponse, UrlResponseView};

verus! {

/// The value by which a listing is put in order, largest first.
#[derive(Debug, Clone, Copy, PartialEq, Eq, Structural)]
pub enum SortKey {
    /// By creation time: the newest record comes first.
    CreatedAt,
    /// By access count: the most clicked record comes first.
    AccessCount,
}

/// The number that `key` reads off a response.
pub open spec fn rank(response: UrlResponseView, key: SortKey) -> int {
    match key {
        SortKey::CreatedAt => response.created_at.ordinal(),
        SortKey::AccessCount => response.access_count,
    }
}

/// Whether no response is followed by one of higher rank.
pub open spec fn is_sorted_descending(list: Seq<UrlResponse>, key: SortKey) -> bool {
    forall|i: int, j: int|
        0 <= i < j < list.len() ==> rank((#[trigger] list[i])@, key) >= rank(
            (#[trigger] list[j])@,
            key,
        )
}

/// The responses of rank `wanted`, in the order in which `list` has them.
pub open spec fn with_rank(list: Seq<UrlResponse>, key: SortKey, wanted: int) -> Seq<UrlResponse> {
    list.filter(|response: UrlResponse| rank(response@, key) == wanted)
}

/// Whether `sorted` is `list` put in descending order of rank by a stable
/// sort: it holds the same responses, the higher rank first, and responses
/// of equal rank in the order in which `list` had them.
pub open spec fn is_stable_sort_of(sorted: Seq<UrlResponse>, list: Seq<UrlResponse>, key: SortKey) -> bool {
    &&& is_sorted_descending(sorted, key)
    &&& sorted.to_multiset() == list.to_multiset()
    &&& forall|wanted: int| #[trigger]
        with_rank(sorted, key, wanted) == with_rank(list, key, wanted)
}

/// Whether `first` may stand before `second`: its rank is not the lower one.
pub fn ranks_at_least(first: &UrlResponse, second: &UrlResponse, key: SortKey) -> (holds: bool)
    ensures
        holds == (rank(first@, key) >= rank(second@, key)),
{
    match key {
        SortKey::CreatedAt => first.created_at.not_before(&second.created_at),
        SortKey::AccessCount => first.access_count >= second.access_count,
    }
}

/// Nothing merged from nothing: the multiset of the empty sequence is
/// the sum of two such multisets.
proof fn lemma_nothing_merged()
    ensures
        Seq::<UrlResponse>::empty().to_multiset() == Seq::<UrlResponse>::empty().to_multiset().add(
            Seq::<UrlResponse>::empty().to_multiset(),
        ),
{
    let nothing = Seq::<UrlResponse>::empty().to_multiset();
    vstd::seq_lib::to_multiset_len(Seq::<UrlResponse>::empty());
    assert forall|response: UrlResponse| nothing.count(response) == 0 by {
        assert(nothing.count(response) <= nothing.len());
    }
    assert(nothing =~= nothing.add(nothing));
}

/// No response of `list` has rank `wanted`.
proof fn lemma_with_rank_none(list: Seq<UrlResponse>, key: SortKey, wanted: int)
    requires
        forall|i: int| 0 <= i < list.len() ==> rank((#[trigger] list[i])@, key) != wanted,
    ensures
        with_rank(list, key, wanted) == Seq::<UrlResponse>::empty(),
{
    let pred = |response: UrlResponse| rank(response@, key) == wanted;
    assert(list.all(|response: UrlResponse| !pred(response)));
    list.lemma_all_neg_filter_empty(pred);
    assert(list.filter(pred) =~= Seq::<UrlResponse>::empty());
}

/// What putting `head` in front of a sequence does to its multiset and to
/// its responses of each rank.
proof fn lemma_prepend(head: UrlResponse, list: Seq<UrlResponse>, key: SortKey)
    ensures
        (seq![head] + list).to_multiset() == list.to_multiset().insert(head),
        forall|wanted: int| #[trigger]
            with_rank(seq![head] + list, key, wanted) == (if rank(head@, key) == wanted {
                seq![head]
            } else {
                Seq::empty()
            }) + with_rank(list, key, wanted),
{
    assert(seq![head] + list =~= list.insert(0, head));
    vstd::seq_lib::to_multiset_insert(list, 0, head);
    assert forall|wanted: int| #[trigger]
        with_rank(seq![head] + list, key, wanted) == (if rank(head@, key) == wanted {
            seq![head]
        } else {
            Seq::empty()
        }) + with_rank(list, key, wanted) by {
        list.lemma_filter_prepend(head, |response: UrlResponse| rank(response@, key) == wanted);
    }
}

/// Merges two sorted sequences into one. Of two responses of equal rank the
/// one from `left` comes first.
fn merge(left: Vec<UrlResponse>, right: Vec<UrlResponse>, key: SortKey) -> (merged: Vec<UrlResponse>)
    requires
        is_sorted_descending(left@, key),
        is_sorted_descending(right@, key),
    ensures
        is_sorted_descending(merged@, key),
        merged@.to_multiset() == left@.to_multiset().add(right@.to_multiset()),
        forall|wanted: int| #[trigger]
            with_rank(merged@, key, wanted) == with_rank(left@, key, wanted) + with_rank(
                right@,
                key,
                wanted,
            ),
{
    let ghost left_all = left@;
    let ghost right_all = right@;
    let mut left = left;
    let mut right = right;
    // The merged responses are collected from the last to the first.
    let mut backward: Vec<UrlResponse> = Vec::new();
    let ghost mut tail: Seq<UrlResponse> = Seq::empty();
    proof {
        assert(left_all.skip(left_all.len() as int) =~= Seq::empty());
        assert(right_all.skip(right_all.len() as int) =~= Seq::empty());
        assert(left_all.take(left_all.len() as int) =~= left_all);
        assert(right_all.take(right_all.len() as int) =~= right_all);
        lemma_nothing_merged();
        assert forall|wanted: int| #[trigger]
            with_rank(tail, key, wanted) == with_rank(
                left_all.skip(left_all.len() as int),
                key,
                wanted,
            ) + with_rank(right_all.skip(right_all.len() as int), key, wanted) by {
            lemma_with_rank_none(Seq::empty(), key, wanted);
        }
    }
    while left.len() > 0 || right.len() > 0
        invariant
            is_sorted_descending(left_all, key),
            is_sorted_descending(right_all, key),
            left.len() <= left_all.len(),
            right.len() <= right_all.len(),
            left@ == left_all.take(left.len() as int),
            right@ == right_all.take(right.len() as int),
            backward.len() == tail.len(),
            forall|i: int|
                0 <= i < tail.len() ==> #[trigger] backward@[i] == tail[tail.len() - 1 - i],
            is_sorted_descending(tail, key),
            forall|i: int, j: int|
                0 <= i < left.len() && 0 <= j < tail.len() ==> rank(
                    (#[trigger] left_all[i])@,
                    key,
                ) >= rank((#[trigger] tail[j])@, key),
            forall|i: int, j: int|
                0 <= i < right.len() && 0 <= j < tail.len() ==> rank(
                    (#[trigger] right_all[i])@,
                    key,
                ) >= rank((#[trigger] tail[j])@, key),
            forall|i: int, j: int|
                left.len() <= i < left_all.len() && 0 <= j < right.len() ==> rank(
                    (#[trigger] left_all[i])@,
                    key,
                ) < rank((#[trigger] right_all[j])@, key),
            tail.to_multiset() == left_all.skip(left.len() as int).to_multiset().add(
                right_all.skip(right.len() as int).to_multiset(),
            ),
            forall|wanted: int| #[trigger]
                with_rank(tail, key, wanted) == with_rank(
                    left_all.skip(left.len() as int),
                    key,
                    wanted,
                ) + with_rank(right_all.skip(right.len() as int), key, wanted),
        decreases left.len() + right.len(),
    {
        let from_right = if left.len() == 0 {
            true
        } else if right.len() == 0 {
            false
        } else {
            ranks_at_least(&left[left.len() - 1], &right[right.len() - 1], key)
        };
        let ghost taken_left = left_all.skip(left.len() as int);
        let ghost taken_right = right_all.skip(right.len() as int);
        let ghost old_tail = tail;
        if from_right {
            let moved = right.pop().unwrap();
            proof {
                tail = seq![moved] + old_tail;
                let now_right = right_all.skip(right.len() as int);
                assert(now_right =~= seq![moved] + taken_right);
                lemma_prepend(moved, old_tail, key);
                lemma_prepend(moved, taken_right, key);
                assert forall|wanted: int| #[trigger]
                    with_rank(tail, key, wanted) == with_rank(taken_left, key, wanted)
                        + with_rank(now_right, key, wanted) by {
                    if rank(moved@, key) == wanted {
                        assert forall|i: int| 0 <= i < taken_left.len() implies rank(
                            (#[trigger] taken_left[i])@,
                            key,
                        ) != wanted by {
                            assert(taken_left[i] == left_all[left.len() + i]);
                            assert(moved == right_all[right.len() as int]);
                        }
                        lemma_with_rank_none(taken_left, key, wanted);
                        assert(with_rank(tail, key, wanted) =~= with_rank(taken_left, key, wanted)
                            + with_rank(now_right, key, wanted));
                    } else {
                        assert(with_rank(tail, key, wanted) =~= with_rank(taken_left, key, wanted)
                            + with_rank(now_right, key, wanted));
                    }
                }
            }
            backward.push(moved);
        } else {
            let moved = left.pop().unwrap();
            proof {
                tail = seq![moved] + old_tail;
                let now_left = left_all.skip(left.len() as int);
                assert(now_left =~= seq![moved] + taken_left);
                lemma_prepend(moved, old_tail, key);
                lemma_prepend(moved, taken_left, key);
                assert forall|wanted: int| #[trigger]
                    with_rank(tail, key, wanted) == with_rank(now_left, key, wanted) + with_rank(
                        taken_right,
                        key,
                        wanted,
                    ) by {
                    assert(with_rank(tail, key, wanted) =~= with_rank(now_left, key, wanted)
                        + with_rank(taken_right, key, wanted));
                }
            }
            backward.push(moved);
        }
    }
    proof {
        assert(left_all.skip(0) =~= left_all);
        assert(right_all.skip(0) =~= right_all);
    }
    let mut merged: Vec<UrlResponse> = Vec::new();
    while backward.len() > 0
        invariant
            merged.len() + backward.len() == tail.len(),
            merged@ == tail.take(merged.len() as int),
            forall|i: int|
                0 <= i < backward.len() ==> #[trigger] backward@[i] == tail[tail.len() - 1 - i],
        decreases backward.len(),
    {
        let moved = backward.pop().unwrap();
        merged.push(moved);
        proof {
            assert(merged@ =~= tail.take(merged.len() as int));
        }
    }
    proof {
        assert(merged@ =~= tail);
    }
    merged
}

/// Puts `list` in descending order of rank. Responses of equal rank keep
/// the order in which they came.
pub fn sort_descending(list: Vec<UrlResponse>, key: SortKey) -> (sorted: Vec<UrlResponse>)
    ensures
        is_stable_sort_of(sorted@, list@, key),
    decreases list.len(),
{
    if list.len() <= 1 {
        return list;
    }
    let ghost whole = list@;
    let mut left = list;
    let half = left.len() / 2;
    let right = left.split_off(half);
    proof {
        assert(whole =~= left@ + right@);
        vstd::seq_lib::lemma_multiset_commutative(left@, right@);
        assert forall|wanted: int| #[trigger]
            with_rank(whole, key, wanted) == with_rank(left@, key, wanted) + with_rank(
                right@,
                key,
                wanted,
            ) by {
            Seq::filter_distributes_over_add(
                left@,
                right@,
                |response: UrlResponse| rank(response@, key) == wanted,
            );
        }
    }
    let left = sort_descending(left, key);
    let right = sort_descending(right, key);
    merge(left, right, key)
}

} // verus!
