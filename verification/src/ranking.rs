//! Picking the leading items of a sequence by score.

use vstd::multiset::Multiset;
use vstd::prelude::*;

verus! {

/// The place of the item of `items` with the largest score; among items
/// with that score, the first. Zero where there is no item.
pub open spec fn best<T>(items: Seq<T>, score: spec_fn(T) -> int) -> int
    decreases items.len(),
{
    if items.len() <= 1 {
        0
    } else {
        let earlier = best(items.drop_last(), score);
        if score(items.last()) > score(items[earlier]) {
            items.len() - 1
        } else {
            earlier
        }
    }
}

/// The leading items of `items` by score, at most `limit` of them: the item
/// with the largest score, then the one with the largest score among the
/// rest, and so on. Of items with the same score, the one that stands
/// earlier in `items` comes first.
pub open spec fn top<T>(items: Seq<T>, score: spec_fn(T) -> int, limit: nat) -> Seq<T>
    decreases limit,
{
    if limit == 0 || items.len() == 0 {
        Seq::empty()
    } else {
        let lead = best(items, score);
        seq![items[lead]] + top(items.remove(lead), score, (limit - 1) as nat)
    }
}

/// The items of `items` that `top` passes over when it takes at most
/// `limit` of them, in the order in which they stand in `items`.
pub open spec fn passed_over<T>(items: Seq<T>, score: spec_fn(T) -> int, limit: nat) -> Seq<T>
    decreases limit,
{
    if limit == 0 || items.len() == 0 {
        items
    } else {
        passed_over(items.remove(best(items, score)), score, (limit - 1) as nat)
    }
}

/// The best item is an item, no item scores more, and none before it
/// scores as much.
pub proof fn lemma_best<T>(items: Seq<T>, score: spec_fn(T) -> int)
    requires
        items.len() > 0,
    ensures
        0 <= best(items, score) < items.len(),
        forall|i: int| 0 <= i < items.len() ==> score(#[trigger] items[i]) <= score(items[best(items, score)]),
        forall|i: int| 0 <= i < best(items, score) ==> score(#[trigger] items[i]) < score(items[best(items, score)]),
    decreases items.len(),
{
    if items.len() > 1 {
        lemma_best(items.drop_last(), score);
        let earlier = best(items.drop_last(), score);
        assert forall|i: int| 0 <= i < items.len() implies score(#[trigger] items[i]) <= score(
            items[best(items, score)],
        ) by {
            if i < items.len() - 1 {
                assert(items.drop_last()[i] == items[i]);
            }
        }
        assert forall|i: int| 0 <= i < best(items, score) implies score(#[trigger] items[i]) < score(
            items[best(items, score)],
        ) by {
            assert(items.drop_last()[i] == items[i]);
        }
    }
}

/// `top` gives `limit` items, or all of them where there are fewer.
pub proof fn lemma_top_len<T>(items: Seq<T>, score: spec_fn(T) -> int, limit: nat)
    ensures
        top(items, score, limit).len() == if limit <= items.len() {
            limit
        } else {
            items.len()
        },
    decreases limit,
{
    if limit > 0 && items.len() > 0 {
        lemma_best(items, score);
        lemma_top_len(items.remove(best(items, score)), score, (limit - 1) as nat);
    }
}

/// Every item that `top` gives is one of `items`.
pub proof fn lemma_top_from_items<T>(items: Seq<T>, score: spec_fn(T) -> int, limit: nat)
    ensures
        forall|k: int|
            0 <= k < top(items, score, limit).len() ==> items.contains(#[trigger] top(items, score, limit)[k]),
    decreases limit,
{
    if limit > 0 && items.len() > 0 {
        lemma_best(items, score);
        let lead = best(items, score);
        let rest = items.remove(lead);
        lemma_top_from_items(rest, score, (limit - 1) as nat);
        let tail = top(rest, score, (limit - 1) as nat);
        assert forall|k: int| 0 <= k < top(items, score, limit).len() implies items.contains(
            #[trigger] top(items, score, limit)[k],
        ) by {
            if k == 0 {
                assert(items[lead] == top(items, score, limit)[0]);
            } else {
                assert(top(items, score, limit)[k] == tail[k - 1]);
                assert(rest.contains(tail[k - 1]));
                let j = choose|j: int| 0 <= j < rest.len() && rest[j] == tail[k - 1];
                if j < lead {
                    assert(items[j] == rest[j]);
                } else {
                    assert(items[j + 1] == rest[j]);
                }
            }
        }
    }
}

/// `top` gives its items in order of score, largest first.
pub proof fn lemma_top_descends<T>(items: Seq<T>, score: spec_fn(T) -> int, limit: nat)
    ensures
        forall|a: int, b: int|
            0 <= a < b < top(items, score, limit).len() ==> score(#[trigger] top(items, score, limit)[a])
                >= score(#[trigger] top(items, score, limit)[b]),
    decreases limit,
{
    if limit > 0 && items.len() > 0 {
        lemma_best(items, score);
        let lead = best(items, score);
        let rest = items.remove(lead);
        let tail = top(rest, score, (limit - 1) as nat);
        lemma_top_descends(rest, score, (limit - 1) as nat);
        lemma_top_from_items(rest, score, (limit - 1) as nat);
        assert forall|a: int, b: int| 0 <= a < b < top(items, score, limit).len() implies score(
            #[trigger] top(items, score, limit)[a],
        ) >= score(#[trigger] top(items, score, limit)[b]) by {
            assert(top(items, score, limit)[b] == tail[b - 1]);
            if a == 0 {
                assert(rest.contains(tail[b - 1]));
                let j = choose|j: int| 0 <= j < rest.len() && rest[j] == tail[b - 1];
                if j < lead {
                    assert(items[j] == rest[j]);
                } else {
                    assert(items[j + 1] == rest[j]);
                }
            } else {
                assert(top(items, score, limit)[a] == tail[a - 1]);
            }
        }
    }
}

/// Every item that `top` passes over is one of `items`.
pub proof fn lemma_passed_over_from_items<T>(items: Seq<T>, score: spec_fn(T) -> int, limit: nat)
    ensures
        forall|k: int|
            0 <= k < passed_over(items, score, limit).len() ==> items.contains(
                #[trigger] passed_over(items, score, limit)[k],
            ),
    decreases limit,
{
    if limit > 0 && items.len() > 0 {
        lemma_best(items, score);
        let lead = best(items, score);
        let rest = items.remove(lead);
        lemma_passed_over_from_items(rest, score, (limit - 1) as nat);
        let left = passed_over(rest, score, (limit - 1) as nat);
        assert forall|k: int| 0 <= k < left.len() implies items.contains(#[trigger] left[k]) by {
            assert(rest.contains(left[k]));
            let j = choose|j: int| 0 <= j < rest.len() && rest[j] == left[k];
            if j < lead {
                assert(items[j] == rest[j]);
            } else {
                assert(items[j + 1] == rest[j]);
            }
        }
    } else {
        assert forall|k: int| 0 <= k < items.len() implies items.contains(#[trigger] items[k]) by {
            assert(items[k] == items[k]);
        }
    }
}

/// The sequence of no items holds no item.
proof fn lemma_nothing_holds_nothing<T>()
    ensures
        Seq::<T>::empty().to_multiset() == Multiset::<T>::empty(),
{
    let nothing = Seq::<T>::empty();
    vstd::seq_lib::to_multiset_len(nothing);
    vstd::multiset::lemma_multiset_empty_len(nothing.to_multiset());
}

/// `top` takes the leading items: the items it gives and the items it
/// passes over are together the items there are, each as often as it
/// occurs, and no item passed over scores more than an item given.
pub proof fn lemma_top_leads<T>(items: Seq<T>, score: spec_fn(T) -> int, limit: nat)
    ensures
        items.to_multiset() == top(items, score, limit).to_multiset().add(
            passed_over(items, score, limit).to_multiset(),
        ),
        forall|a: int, b: int|
            0 <= a < top(items, score, limit).len() && 0 <= b < passed_over(items, score, limit).len() ==> score(
                #[trigger] top(items, score, limit)[a],
            ) >= score(#[trigger] passed_over(items, score, limit)[b]),
    decreases limit,
{
    broadcast use vstd::multiset::group_multiset_axioms;

    if limit > 0 && items.len() > 0 {
        lemma_best(items, score);
        let lead = best(items, score);
        let rest = items.remove(lead);
        let tail = top(rest, score, (limit - 1) as nat);
        let left = passed_over(rest, score, (limit - 1) as nat);
        lemma_top_leads(rest, score, (limit - 1) as nat);
        lemma_passed_over_from_items(rest, score, (limit - 1) as nat);
        vstd::seq_lib::to_multiset_remove(items, lead);
        vstd::seq_lib::lemma_multiset_commutative(seq![items[lead]], tail);
        items.to_multiset_ensures();
        assert(items.contains(items[lead]));
        assert(seq![items[lead]].to_multiset() =~= Multiset::<T>::empty().insert(items[lead])) by {
            lemma_nothing_holds_nothing::<T>();
            vstd::seq_lib::to_multiset_build(Seq::<T>::empty(), items[lead]);
            assert(Seq::<T>::empty().push(items[lead]) =~= seq![items[lead]]);
        }
        let one = Multiset::<T>::empty().insert(items[lead]);
        assert(top(items, score, limit) == seq![items[lead]] + tail);
        assert(top(items, score, limit).to_multiset() == one.add(tail.to_multiset()));
        assert(passed_over(items, score, limit) == left);
        assert(rest.to_multiset() == items.to_multiset().remove(items[lead]));
        assert(items.to_multiset().count(items[lead]) > 0);
        assert(items.to_multiset() =~= one.add(rest.to_multiset()));
        assert(one.add(tail.to_multiset().add(left.to_multiset())) =~= one.add(tail.to_multiset()).add(
            left.to_multiset(),
        ));
        assert forall|a: int, b: int|
            0 <= a < top(items, score, limit).len() && 0 <= b < left.len() implies score(
            #[trigger] top(items, score, limit)[a],
        ) >= score(#[trigger] left[b]) by {
            if a == 0 {
                assert(rest.contains(left[b]));
                let j = choose|j: int| 0 <= j < rest.len() && rest[j] == left[b];
                if j < lead {
                    assert(items[j] == rest[j]);
                } else {
                    assert(items[j + 1] == rest[j]);
                }
            } else {
                assert(top(items, score, limit)[a] == tail[a - 1]);
            }
        }
    } else {
        lemma_nothing_holds_nothing::<T>();
        assert(items.to_multiset() =~= top(items, score, limit).to_multiset().add(
            passed_over(items, score, limit).to_multiset(),
        ));
    }
}

/// Where no two items have the same score, `top` gives its items in
/// strictly descending order of score.
pub proof fn lemma_top_strictly_descends<T>(items: Seq<T>, score: spec_fn(T) -> int, limit: nat)
    requires
        forall|i: int, j: int|
            0 <= i < j < items.len() ==> score(#[trigger] items[i]) != score(#[trigger] items[j]),
    ensures
        forall|a: int, b: int|
            0 <= a < b < top(items, score, limit).len() ==> score(#[trigger] top(items, score, limit)[a])
                > score(#[trigger] top(items, score, limit)[b]),
    decreases limit,
{
    if limit > 0 && items.len() > 0 {
        lemma_best(items, score);
        let lead = best(items, score);
        let rest = items.remove(lead);
        let tail = top(rest, score, (limit - 1) as nat);
        assert forall|i: int, j: int| 0 <= i < j < rest.len() implies score(#[trigger] rest[i]) != score(
            #[trigger] rest[j],
        ) by {
            let from_i = if i < lead { i } else { i + 1 };
            let from_j = if j < lead { j } else { j + 1 };
            assert(rest[i] == items[from_i]);
            assert(rest[j] == items[from_j]);
        }
        lemma_top_strictly_descends(rest, score, (limit - 1) as nat);
        lemma_top_from_items(rest, score, (limit - 1) as nat);
        assert forall|a: int, b: int| 0 <= a < b < top(items, score, limit).len() implies score(
            #[trigger] top(items, score, limit)[a],
        ) > score(#[trigger] top(items, score, limit)[b]) by {
            assert(top(items, score, limit)[b] == tail[b - 1]);
            if a == 0 {
                assert(rest.contains(tail[b - 1]));
                let j = choose|j: int| 0 <= j < rest.len() && rest[j] == tail[b - 1];
                let from = if j < lead { j } else { j + 1 };
                assert(items[from] == rest[j]);
                if from < lead {
                    assert(score(items[from]) != score(items[lead]));
                } else {
                    assert(score(items[lead]) != score(items[from]));
                }
            } else {
                assert(top(items, score, limit)[a] == tail[a - 1]);
            }
        }
    }
}

/// The places in `items` of its leading items by score, at most `limit` of
/// them, where `scores` holds the score of each item.
pub(crate) fn top_places<T>(
    scores: &Vec<i128>,
    limit: usize,
    Ghost(items): Ghost<Seq<T>>,
    Ghost(score): Ghost<spec_fn(T) -> int>,
) -> (places: Vec<usize>)
    requires
        scores.len() == items.len(),
        forall|i: int| 0 <= i < items.len() ==> scores[i] == score(#[trigger] items[i]),
    ensures
        places.len() == top(items, score, limit as nat).len(),
        forall|k: int|
            0 <= k < places.len() ==> {
                &&& 0 <= #[trigger] places[k] < items.len()
                &&& items[places[k] as int] == top(items, score, limit as nat)[k]
            },
{
    let mut left: Vec<usize> = Vec::new();
    let mut i: usize = 0;
    while i < scores.len()
        invariant
            i <= scores.len(),
            left.len() == i,
            forall|j: int| 0 <= j < i ==> left[j] == j,
        decreases scores.len() - i,
    {
        left.push(i);
        i = i + 1;
    }
    let ghost mut rest: Seq<T> = items;
    let mut places: Vec<usize> = Vec::new();
    proof {
        assert(Seq::<T>::empty() + top(rest, score, limit as nat) =~= top(items, score, limit as nat));
    }
    while places.len() < limit && left.len() > 0
        invariant
            scores.len() == items.len(),
            forall|i: int| 0 <= i < items.len() ==> scores[i] == score(#[trigger] items[i]),
            left.len() == rest.len(),
            forall|j: int| 0 <= j < left.len() ==> 0 <= #[trigger] left[j] < items.len() && items[left[j] as int] == rest[j],
            places.len() <= limit,
            forall|k: int| 0 <= k < places.len() ==> 0 <= #[trigger] places[k] < items.len(),
            top(items, score, limit as nat) == Seq::new(places.len() as nat, |k: int| items[places[k] as int])
                + top(rest, score, (limit - places.len()) as nat),
        decreases left.len(),
    {
        let mut lead: usize = 0;
        let mut j: usize = 1;
        proof {
            assert(best(rest.take(1), score) == 0);
        }
        while j < left.len()
            invariant
                1 <= j <= left.len(),
                lead < j,
                scores.len() == items.len(),
                forall|i: int| 0 <= i < items.len() ==> scores[i] == score(#[trigger] items[i]),
                left.len() == rest.len(),
                forall|a: int| 0 <= a < left.len() ==> 0 <= #[trigger] left[a] < items.len() && items[left[a] as int] == rest[a],
                lead == best(rest.take(j as int), score),
            decreases left.len() - j,
        {
            proof {
                assert(rest.take(j as int + 1).drop_last() =~= rest.take(j as int));
                assert(rest.take(j as int + 1).last() == rest[j as int]);
                assert(rest.take(j as int + 1)[lead as int] == rest[lead as int]);
            }
            if scores[left[j]] > scores[left[lead]] {
                lead = j;
            }
            j = j + 1;
        }
        proof {
            assert(rest.take(left.len() as int) =~= rest);
        }
        let ghost shown = Seq::new(places.len() as nat, |k: int| items[places[k] as int]);
        let ghost before = places@;
        let ghost left_before = left@;
        let place: usize = left[lead];
        places.push(place);
        left.remove(lead);
        proof {
            let tail = top(rest.remove(lead as int), score, (limit - before.len() - 1) as nat);
            let shown_now = Seq::new(places.len() as nat, |k: int| items[places[k] as int]);
            assert(shown_now =~= shown.push(rest[lead as int]));
            assert(shown + (seq![rest[lead as int]] + tail) =~= shown.push(rest[lead as int]) + tail);
            rest = rest.remove(lead as int);
            assert forall|a: int| 0 <= a < left.len() implies 0 <= #[trigger] left[a] < items.len()
                && items[left[a] as int] == rest[a] by {
                if a < lead {
                    assert(left[a] == left_before[a]);
                } else {
                    assert(left[a] == left_before[a + 1]);
                }
            }
        }
    }
    proof {
        let shown = Seq::new(places.len() as nat, |k: int| items[places[k] as int]);
        assert(top(rest, score, (limit - places.len()) as nat) =~= Seq::<T>::empty());
        assert(top(items, score, limit as nat) =~= shown);
    }
    places
}

} // verus!
