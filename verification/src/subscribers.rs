//! Lists of subscribers: merging by name, and removing by name.
//!
//! The subscribers of a queue are kept as a list, so that the order in
//! which they are posted to is fixed and a merge has one result: a name
//! keeps the place at which it first occurred.

use vstd::prelude::*;
use crate::queue_info::{QueueSubscriber, SubscriberView};

verus! {

/// The first place in a list at which a subscriber has the name.
pub open spec fn named_at(list: Seq<SubscriberView>, name: Seq<char>) -> Option<int>
    decreases list.len(),
{
    if list.len() == 0 {
        None
    } else {
        match named_at(list.drop_last(), name) {
            Some(i) => Some(i),
            None => if list.last().name == name {
                Some(list.len() - 1)
            } else {
                None
            },
        }
    }
}

/// The list with a subscriber put in: in the place of the one that has its
/// name, or at the end where none has.
pub open spec fn upsert(list: Seq<SubscriberView>, subscriber: SubscriberView) -> Seq<
    SubscriberView,
> {
    match named_at(list, subscriber.name) {
        Some(i) => list.update(i, subscriber),
        None => list.push(subscriber),
    }
}

/// The list with one subscriber for each name: the last that has the name,
/// at the place where the name occurs first.
pub open spec fn absorb(list: Seq<SubscriberView>) -> Seq<SubscriberView>
    decreases list.len(),
{
    if list.len() == 0 {
        Seq::empty()
    } else {
        upsert(absorb(list.drop_last()), list.last())
    }
}

/// The current subscribers after the additions have been merged in by
/// name.
pub open spec fn merged(current: Seq<SubscriberView>, additions: Seq<SubscriberView>) -> Seq<
    SubscriberView,
> {
    absorb(current + additions)
}

/// Whether one of the subscribers has the name.
pub open spec fn names(list: Seq<SubscriberView>, name: Seq<char>) -> bool {
    exists|i: int| 0 <= i < list.len() && (#[trigger] list[i]).name == name
}

/// The subscribers of a list that no target names, in their order.
pub open spec fn without(list: Seq<SubscriberView>, targets: Seq<SubscriberView>) -> Seq<
    SubscriberView,
>
    decreases list.len(),
{
    if list.len() == 0 {
        Seq::empty()
    } else if names(targets, list.last().name) {
        without(list.drop_last(), targets)
    } else {
        without(list.drop_last(), targets).push(list.last())
    }
}

/// What the first places of a list say of a name holds of the whole list
/// once the name has been found.
pub proof fn lemma_named_at_found(list: Seq<SubscriberView>, name: Seq<char>, i: int, m: int)
    requires
        0 <= i < m <= list.len(),
        named_at(list.take(i), name) is None,
        list[i].name == name,
    ensures
        named_at(list.take(m), name) == Some(i),
    decreases m - i,
{
    if m == i + 1 {
        assert(list.take(m).drop_last() =~= list.take(i));
    } else {
        lemma_named_at_found(list, name, i, m - 1);
        assert(list.take(m).drop_last() =~= list.take(m - 1));
    }
}

/// A place that `named_at` gives is a place of the list, and the
/// subscriber there has the name; where it gives none, no subscriber has
/// the name.
pub proof fn lemma_named_at(list: Seq<SubscriberView>, name: Seq<char>)
    ensures
        match named_at(list, name) {
            Some(i) => 0 <= i < list.len() && list[i].name == name && forall|k: int|
                0 <= k < i ==> (#[trigger] list[k]).name != name,
            None => !names(list, name),
        },
    decreases list.len(),
{
    if list.len() > 0 {
        lemma_named_at(list.drop_last(), name);
        match named_at(list.drop_last(), name) {
            Some(i) => {
                assert forall|k: int| 0 <= k < i implies (#[trigger] list[k]).name != name by {
                    assert(list.drop_last()[k].name != name);
                }
            },
            None => {
                assert forall|k: int| 0 <= k < list.len() - 1 implies (#[trigger] list[k]).name
                    != name by {
                    assert(list.drop_last()[k].name == list[k].name);
                }
            },
        }
    }
}

/// The place of the first subscriber with the name.
pub fn find_named(list: &Vec<QueueSubscriber>, name: &String) -> (found: Option<usize>)
    ensures
        match found {
            Some(i) => named_at(list.deep_view(), name@) == Some(i as int) && i < list.len(),
            None => named_at(list.deep_view(), name@) is None,
        },
{
    let ghost all = list.deep_view();
    let mut i: usize = 0;
    assert(all.take(0) =~= Seq::empty());
    while i < list.len()
        invariant
            all == list.deep_view(),
            all.len() == list.len(),
            i <= list.len(),
            named_at(all.take(i as int), name@) is None,
        decreases list.len() - i,
    {
        assert(all[i as int] == list[i as int]@);
        if list[i].name == *name {
            proof {
                lemma_named_at_found(all, name@, i as int, all.len() as int);
                assert(all.take(all.len() as int) =~= all);
            }
            return Some(i);
        }
        proof {
            assert(all.take(i as int + 1).drop_last() =~= all.take(i as int));
        }
        i = i + 1;
    }
    proof {
        assert(all.take(all.len() as int) =~= all);
    }
    None
}

/// Puts a subscriber into a list: in the place of the one that has its
/// name, or at the end.
pub fn put_subscriber(list: &mut Vec<QueueSubscriber>, subscriber: QueueSubscriber)
    ensures
        final(list).deep_view() == upsert(old(list).deep_view(), subscriber@),
{
    proof {
        lemma_named_at(list.deep_view(), subscriber@.name);
    }
    match find_named(list, &subscriber.name) {
        Some(i) => {
            list[i] = subscriber;
            assert(list.deep_view() =~= old(list).deep_view().update(i as int, subscriber@));
        },
        None => {
            list.push(subscriber);
            assert(list.deep_view() =~= old(list).deep_view().push(subscriber@));
        },
    }
}

/// Merges additions into the current subscribers by name: of the
/// subscribers with one name the last is kept, at the place where the name
/// occurs first.
pub fn merge_subscribers(current: &Vec<QueueSubscriber>, additions: &Vec<QueueSubscriber>) -> (out:
    Vec<QueueSubscriber>)
    ensures
        out.deep_view() == merged(current.deep_view(), additions.deep_view()),
{
    let ghost all = current.deep_view() + additions.deep_view();
    let mut out: Vec<QueueSubscriber> = Vec::new();
    assert(out.deep_view() =~= absorb(all.take(0))) by {
        assert(all.take(0) =~= Seq::empty());
    }
    let mut i: usize = 0;
    while i < current.len()
        invariant
            all == current.deep_view() + additions.deep_view(),
            i <= current.len(),
            out.deep_view() == absorb(all.take(i as int)),
        decreases current.len() - i,
    {
        proof {
            assert(all.take(i as int + 1).drop_last() =~= all.take(i as int));
            assert(all.take(i as int + 1).last() == current[i as int]@);
        }
        put_subscriber(&mut out, current[i].clone());
        i = i + 1;
    }
    let mut k: usize = 0;
    while k < additions.len()
        invariant
            all == current.deep_view() + additions.deep_view(),
            k <= additions.len(),
            out.deep_view() == absorb(all.take(current.len() + k)),
        decreases additions.len() - k,
    {
        proof {
            let n = current.len() + k;
            assert(all.take(n + 1).drop_last() =~= all.take(n));
            assert(all.take(n + 1).last() == additions[k as int]@);
        }
        put_subscriber(&mut out, additions[k].clone());
        k = k + 1;
    }
    proof {
        assert(all.take(current.len() + additions.len()) =~= all);
    }
    out
}

/// Whether one of the subscribers has the name.
pub fn is_named(list: &Vec<QueueSubscriber>, name: &String) -> (found: bool)
    ensures
        found == names(list.deep_view(), name@),
{
    proof {
        lemma_named_at(list.deep_view(), name@);
    }
    find_named(list, name).is_some()
}

/// The subscribers of a list that no target names, in their order.
pub fn remove_subscribers(current: &Vec<QueueSubscriber>, targets: &Vec<QueueSubscriber>) -> (out:
    Vec<QueueSubscriber>)
    ensures
        out.deep_view() == without(current.deep_view(), targets.deep_view()),
{
    let ghost all = current.deep_view();
    let mut out: Vec<QueueSubscriber> = Vec::new();
    assert(out.deep_view() =~= without(all.take(0), targets.deep_view())) by {
        assert(all.take(0) =~= Seq::empty());
    }
    let mut i: usize = 0;
    while i < current.len()
        invariant
            all == current.deep_view(),
            i <= current.len(),
            out.deep_view() == without(all.take(i as int), targets.deep_view()),
        decreases current.len() - i,
    {
        proof {
            assert(all.take(i as int + 1).drop_last() =~= all.take(i as int));
            assert(all.take(i as int + 1).last() == current[i as int]@);
        }
        if !is_named(targets, &current[i].name) {
            let ghost before = out.deep_view();
            out.push(current[i].clone());
            assert(out.deep_view() =~= before.push(current[i as int]@));
        }
        i = i + 1;
    }
    proof {
        assert(all.take(current.len() as int) =~= all);
    }
    out
}

/// Putting a subscriber into a list leaves no list empty.
pub proof fn lemma_upsert_len(list: Seq<SubscriberView>, subscriber: SubscriberView)
    ensures
        upsert(list, subscriber).len() >= list.len(),
        upsert(list, subscriber).len() >= 1,
{
    lemma_named_at(list, subscriber.name);
}

/// Merging never leaves a queue with fewer subscribers than one, as long
/// as there was one or one is added.
pub proof fn lemma_merged_keeps(current: Seq<SubscriberView>, additions: Seq<SubscriberView>)
    ensures
        current.len() + additions.len() > 0 ==> merged(current, additions).len() > 0,
{
    let all = current + additions;
    if all.len() > 0 {
        lemma_upsert_len(absorb(all.drop_last()), all.last());
    }
}

/// Whether a subscriber is the last of its name in a list.
pub open spec fn is_last_of_its_name(list: Seq<SubscriberView>, subscriber: SubscriberView) -> bool {
    exists|k: int|
        0 <= k < list.len() && #[trigger] list[k] == subscriber && forall|m: int|
            k < m < list.len() ==> (#[trigger] list[m]).name != subscriber.name
}

/// Merging by name keeps every name once, and of the subscribers with one
/// name the last: no two subscribers of the merged list have the same
/// name, each of them is the last of its name in what was merged, and
/// every name that went in is a name of the merged list.
pub proof fn absorb_keeps_the_last_of_each_name(list: Seq<SubscriberView>)
    ensures
        forall|i: int, j: int|
            0 <= i < j < absorb(list).len() ==> (#[trigger] absorb(list)[i]).name != (
            #[trigger] absorb(list)[j]).name,
        forall|i: int|
            0 <= i < absorb(list).len() ==> is_last_of_its_name(list, #[trigger] absorb(list)[i]),
        forall|name: Seq<char>| names(list, name) <==> names(absorb(list), name),
        absorb(list).len() <= list.len(),
    decreases list.len(),
{
    if list.len() > 0 {
        let shorter = list.drop_last();
        let last = list.last();
        let before = absorb(shorter);
        let after = absorb(list);
        absorb_keeps_the_last_of_each_name(shorter);
        lemma_named_at(before, last.name);
        let n = list.len() - 1;
        assert(list[n] == last);
        assert(is_last_of_its_name(list, last)) by {
            assert(list[n] == last && forall|m: int|
                n < m < list.len() ==> (#[trigger] list[m]).name != last.name);
        }
        assert forall|i: int| 0 <= i < after.len() implies is_last_of_its_name(
            list,
            #[trigger] after[i],
        ) by {
            if after[i] != last {
                assert(after[i] == before[i]);
                assert(is_last_of_its_name(shorter, before[i]));
                let k = choose|k: int|
                    0 <= k < shorter.len() && #[trigger] shorter[k] == before[i] && forall|m: int|
                        k < m < shorter.len() ==> (#[trigger] shorter[m]).name != before[i].name;
                assert(list[k] == shorter[k]);
                assert(before[i].name != last.name) by {
                    match named_at(before, last.name) {
                        Some(p) => {
                            if i < p {
                                assert(before[i].name != before[p].name);
                            } else if p < i {
                                assert(before[p].name != before[i].name);
                            }
                        },
                        None => {
                            if before[i].name == last.name {
                                assert(names(before, last.name));
                            }
                        },
                    }
                }
                assert forall|m: int| k < m < list.len() implies (#[trigger] list[m]).name
                    != before[i].name by {
                    if m < shorter.len() {
                        assert(shorter[m].name != before[i].name);
                    }
                }
                assert(0 <= k < list.len() && list[k] == after[i]);
            }
        }
        assert forall|i: int, j: int| 0 <= i < j < after.len() implies (#[trigger] after[i]).name != (
        #[trigger] after[j]).name by {
            match named_at(before, last.name) {
                Some(p) => {
                    assert(before[i].name != before[j].name);
                },
                None => {
                    if j < before.len() {
                        assert(before[i].name != before[j].name);
                    } else {
                        if before[i].name == last.name {
                            assert(names(before, last.name));
                        }
                    }
                },
            }
        }
        assert forall|name: Seq<char>| names(list, name) <==> names(after, name) by {
            if names(list, name) {
                let k = choose|k: int| 0 <= k < list.len() && (#[trigger] list[k]).name == name;
                if k < n {
                    assert(shorter[k].name == name);
                    assert(names(shorter, name));
                    assert(names(before, name));
                    let i = choose|i: int| 0 <= i < before.len() && (#[trigger] before[i]).name == name;
                    assert(after[i].name == name);
                } else {
                    match named_at(before, last.name) {
                        Some(p) => {
                            assert(after[p].name == name);
                        },
                        None => {
                            assert(after[before.len() as int].name == name);
                        },
                    }
                }
            }
            if names(after, name) {
                let i = choose|i: int| 0 <= i < after.len() && (#[trigger] after[i]).name == name;
                if after[i] == last {
                    assert(list[n].name == name);
                } else {
                    assert(before[i].name == name);
                    assert(names(before, name));
                    assert(names(shorter, name));
                    let k = choose|k: int|
                        0 <= k < shorter.len() && (#[trigger] shorter[k]).name == name;
                    assert(list[k].name == name);
                }
            }
        }
    }
}

/// Whether a subscriber stands in a list.
pub open spec fn occurs(list: Seq<SubscriberView>, subscriber: SubscriberView) -> bool {
    exists|i: int| 0 <= i < list.len() && #[trigger] list[i] == subscriber
}

/// Removing by name takes out exactly the subscribers that a target
/// names: a subscriber is left if and only if it was there and no target
/// has its name.
pub proof fn without_drops_the_named(list: Seq<SubscriberView>, targets: Seq<SubscriberView>)
    ensures
        without(list, targets).len() <= list.len(),
        forall|subscriber: SubscriberView|
            occurs(without(list, targets), subscriber) <==> occurs(list, subscriber) && !names(
                targets,
                subscriber.name,
            ),
    decreases list.len(),
{
    if list.len() > 0 {
        let shorter = list.drop_last();
        let last = list.last();
        let left = without(list, targets);
        let shorter_left = without(shorter, targets);
        without_drops_the_named(shorter, targets);
        assert forall|subscriber: SubscriberView|
            occurs(left, subscriber) <==> occurs(list, subscriber) && !names(
                targets,
                subscriber.name,
            ) by {
            if occurs(left, subscriber) {
                let i = choose|i: int| 0 <= i < left.len() && #[trigger] left[i] == subscriber;
                if i < shorter_left.len() {
                    assert(shorter_left[i] == subscriber);
                    assert(occurs(shorter_left, subscriber));
                    assert(occurs(shorter, subscriber));
                    let k = choose|k: int|
                        0 <= k < shorter.len() && #[trigger] shorter[k] == subscriber;
                    assert(list[k] == subscriber);
                } else {
                    assert(list[list.len() - 1] == subscriber);
                }
            }
            if occurs(list, subscriber) && !names(targets, subscriber.name) {
                let k = choose|k: int| 0 <= k < list.len() && #[trigger] list[k] == subscriber;
                if k < shorter.len() {
                    assert(shorter[k] == subscriber);
                    assert(occurs(shorter, subscriber));
                    assert(occurs(shorter_left, subscriber));
                    let i = choose|i: int|
                        0 <= i < shorter_left.len() && #[trigger] shorter_left[i] == subscriber;
                    assert(left[i] == subscriber);
                } else {
                    assert(left[left.len() - 1] == subscriber);
                }
            }
        }
    }
}

} // verus!
