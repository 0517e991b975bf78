//! What holds of the reservation engine whatever the store holds: a
//! message is on exactly one side, it keeps its place when it is released,
//! only the holder of its token can renew or release it, and what was
//! enqueued can be read until it is deleted.

use vstd::prelude::*;
use crate::error::QueueError;
use crate::message::{MessageState, MessageView};
use crate::mq::message::{
    fresh_slot, lemma_enqueued, lemma_with_queue, lemma_with_slot, lemma_without,
};
use crate::mq::reserve::{
    bumped, heads, is_picked, lease_at, leases, lemma_heads_end, lemma_leases_end, lemma_reserved,
    lemma_unreserved_before_grows, unreserved_before,
};
use crate::mq::queue::{create_verdict, lemma_ensured, lemma_put, lemma_removed};
use crate::mq::{lemma_message_position, QueueRecordView, SlotView, StoreView};
use crate::queue_info::{QueueInfoView, QueueState, QueueType};

verus! {

/// A message that a queue holds is either reserved or unreserved, never
/// both and never neither; a message that it does not hold is on neither
/// side.
pub proof fn reservation_is_exclusive(queue: QueueRecordView, id: Seq<char>)
    requires
        queue.wf(),
    ensures
        queue.holds(id) ==> (queue.unreserved_ids().contains(id) != queue.reserved_ids().contains(
            id,
        )),
        !queue.holds(id) ==> !queue.unreserved_ids().contains(id) && !queue.reserved_ids().contains(
            id,
        ),
{
    if queue.holds(id) {
        let p = queue.position(id);
        assert(queue.is_at(id, p));
        assert forall|i: int| queue.is_at(id, i) implies i == p by {
            lemma_message_position(queue, id, i);
        }
        if queue.slots[p].reserved {
            assert(queue.reserved_ids().contains(id));
        } else {
            assert(queue.unreserved_ids().contains(id));
        }
    }
}

/// Where no message before a place is unreserved, none has been counted.
pub proof fn lemma_none_before(slots: Seq<SlotView>, p: int)
    requires
        0 <= p <= slots.len(),
        forall|j: int| 0 <= j < p ==> (#[trigger] slots[j]).reserved,
    ensures
        unreserved_before(slots, p) == 0,
        forall|limit: nat| heads(slots, limit, p) == Seq::<MessageView>::empty(),
        forall|tokens: Seq<Seq<char>>| leases(slots, tokens, p) == Seq::<MessageView>::empty(),
    decreases p,
{
    if p > 0 {
        lemma_none_before(slots, p - 1);
        assert(slots[p - 1].reserved);
        assert forall|limit: nat| heads(slots, limit, p) == Seq::<MessageView>::empty() by {
            assert(heads(slots, limit, p - 1) == Seq::<MessageView>::empty());
        }
        assert forall|tokens: Seq<Seq<char>>| leases(slots, tokens, p) == Seq::<
            MessageView,
        >::empty() by {
            assert(leases(slots, tokens, p - 1) == Seq::<MessageView>::empty());
        }
    }
}

/// A peek at one message shows the oldest unreserved message.
pub proof fn peek_shows_oldest(queue: QueueRecordView, p: int)
    requires
        0 <= p < queue.slots.len(),
        !queue.slots[p].reserved,
        forall|j: int| 0 <= j < p ==> (#[trigger] queue.slots[j]).reserved,
    ensures
        queue.peek(1) == seq![queue.slots[p].msg],
{
    lemma_none_before(queue.slots, p);
    assert(heads(queue.slots, 1, p) == Seq::<MessageView>::empty());
    assert(is_picked(queue.slots, 1, p));
    assert(heads(queue.slots, 1, p + 1) =~= seq![queue.slots[p].msg]);
    lemma_heads_end(queue.slots, 1, p + 1, queue.slots.len() as int);
}

/// A reservation of one message takes the oldest unreserved message, and
/// hands it out under the token.
pub proof fn reserve_takes_oldest(queue: QueueRecordView, token: Seq<char>, p: int)
    requires
        queue.wf(),
        0 <= p < queue.slots.len(),
        !queue.slots[p].reserved,
        forall|j: int| 0 <= j < p ==> (#[trigger] queue.slots[j]).reserved,
    ensures
        queue.leases(seq![token]) == seq![queue.slots[p].leased(token).msg],
        queue.slots[p].leased(token).msg.reservation_id == Some(token),
        queue.reserved(seq![token]).slots == queue.slots.update(p, queue.slots[p].leased(token)),
{
    let tokens = seq![token];
    lemma_none_before(queue.slots, p);
    assert(leases(queue.slots, tokens, p) == Seq::<MessageView>::empty());
    assert(is_picked(queue.slots, 1, p));
    assert(lease_at(queue.slots, tokens, p) == queue.slots[p].leased(token));
    assert(leases(queue.slots, tokens, p + 1) =~= seq![queue.slots[p].leased(token).msg]);
    lemma_leases_end(queue.slots, tokens, p + 1, queue.slots.len() as int);
    assert(queue.slots[p].wf());
    assert forall|j: int| 0 <= j < queue.slots.len() && j != p implies !is_picked(
        queue.slots,
        1,
        j,
    ) by {
        if j > p {
            lemma_unreserved_before_grows(queue.slots, p + 1, j);
        }
    }
    assert(queue.reserved(tokens).slots =~= queue.slots.update(p, queue.slots[p].leased(token)));
}

/// A release gives the message its old place back: the messages of the
/// queue keep their order, their ids and their sequence numbers, and where
/// every older message is reserved, the released message is the next that
/// a peek shows.
pub proof fn release_keeps_place(
    store: StoreView,
    queue: Seq<char>,
    id: Seq<char>,
    token: Seq<char>,
)
    requires
        store.wf(),
        store.ownership(queue, id, token) is Ok,
    ensures
        ({
            let before = store.queue(queue);
            let after = store.released(queue, id, token).queue(queue);
            let p = before.position(id);
            &&& store.released(queue, id, token).holds(queue)
            &&& after.slots.len() == before.slots.len()
            &&& after.position(id) == p
            &&& !after.slots[p].reserved
            &&& after.slots[p].msg.body == before.slots[p].msg.body
            &&& forall|j: int|
                0 <= j < before.slots.len() ==> {
                    &&& (#[trigger] after.slots[j]).score == before.slots[j].score
                    &&& after.slots[j].msg.id == before.slots[j].msg.id
                    &&& j != p ==> after.slots[j] == before.slots[j]
                }
            &&& (forall|j: int| 0 <= j < p ==> (#[trigger] before.slots[j]).reserved) ==> after.peek(1)
                == seq![after.slots[p].msg]
        }),
{
    let before = store.queue(queue);
    let p = before.position(id);
    assert(before.is_at(id, p));
    let slot = before.slot(id).released();
    assert(before.slot(id).wf());
    lemma_with_slot(before, id, slot);
    lemma_with_queue(store, queue, before.with_slot(id, slot));
    let after = store.released(queue, id, token).queue(queue);
    assert(after == before.with_slot(id, slot));
    if forall|j: int| 0 <= j < p ==> (#[trigger] before.slots[j]).reserved {
        assert forall|j: int| 0 <= j < p implies (#[trigger] after.slots[j]).reserved by {
            assert(before.slots[j].reserved);
        }
        peek_shows_oldest(after, p);
    }
}

/// A token that does not own a message renews nothing; the token that
/// owns it is replaced by the new one, and from then on the old token
/// neither renews nor releases the message.
pub proof fn touch_transfers_ownership(
    store: StoreView,
    queue: Seq<char>,
    id: Seq<char>,
    presented: Seq<char>,
    token: Seq<char>,
)
    requires
        store.wf(),
    ensures
        store.ownership(queue, id, presented) is Err ==> store.touched(queue, id, presented, token)
            == store,
        store.ownership(queue, id, presented) is Ok ==> {
            let after = store.touched(queue, id, presented, token);
            &&& after.wf()
            &&& after.ownership(queue, id, token) is Ok
            &&& after.queue(queue).slot(id).msg.reservation_id == Some(token)
            &&& token != presented ==> {
                &&& after.ownership(queue, id, presented) == Err::<(), QueueError>(
                    QueueError::OwnershipError,
                )
                &&& after.release_verdict(queue, id, presented) == Ok::<bool, QueueError>(false)
                &&& after.released(queue, id, presented) == after
            }
        },
{
    if store.ownership(queue, id, presented) is Ok {
        let before = store.queue(queue);
        let slot = before.slot(id).renewed(token);
        assert(before.is_at(id, before.position(id)));
        assert(before.slot(id).wf());
        lemma_with_slot(before, id, slot);
        lemma_with_queue(store, queue, before.with_slot(id, slot));
    }
}

/// What was enqueued can be read under its id, with the body that was
/// handed in, until it is deleted; after that the queue holds no message
/// with the id.
pub proof fn enqueue_get_delete(store: StoreView, queue: Seq<char>, body: Seq<char>, id: Seq<char>)
    requires
        store.wf(),
        store.admission(queue, id) is Ok,
    ensures
        ({
            let stored = store.enqueued(queue, body, id);
            &&& stored.wf()
            &&& stored.locate(queue, id) == Ok::<SlotView, QueueError>(
                fresh_slot(store.queue(queue).counter, body, id),
            )
            &&& stored.locate(queue, id)->Ok_0.msg.body == body
            &&& stored.delete_verdict(queue, id) == Ok::<bool, QueueError>(true)
            &&& stored.deleted(queue, id).wf()
            &&& stored.deleted(queue, id).locate(queue, id) == Err::<SlotView, QueueError>(
                QueueError::MessageNotFound,
            )
        }),
{
    let before = store.queue(queue);
    lemma_enqueued(before, body, id);
    lemma_with_queue(store, queue, before.enqueued(body, id));
    let stored = store.enqueued(queue, body, id);
    let held = stored.queue(queue);
    lemma_without(held, id);
    lemma_with_queue(stored, queue, held.without(id));
}

/// Deleting a message leaves every other message as it is: the queue
/// without the message holds the same messages in the same order.
pub proof fn delete_removes_one(store: StoreView, queue: Seq<char>, id: Seq<char>)
    requires
        store.wf(),
        store.locate(queue, id) is Ok,
    ensures
        ({
            let before = store.queue(queue);
            let after = store.deleted(queue, id).queue(queue);
            let p = before.position(id);
            &&& store.deleted(queue, id).wf()
            &&& store.deleted(queue, id).holds(queue)
            &&& !after.holds(id)
            &&& after.slots == before.slots.remove(p)
            &&& after.counter == before.counter
        }),
{
    let before = store.queue(queue);
    lemma_without(before, id);
    lemma_with_queue(store, queue, before.without(id));
}

/// A new message changes nothing of the messages that the queue holds.
pub proof fn enqueue_keeps_others(
    store: StoreView,
    queue: Seq<char>,
    body: Seq<char>,
    id: Seq<char>,
    other: Seq<char>,
)
    requires
        store.wf(),
        store.admission(queue, id) is Ok,
        store.locate(queue, other) is Ok,
    ensures
        store.enqueued(queue, body, id).locate(queue, other) == store.locate(queue, other),
{
    let before = store.queue(queue);
    lemma_enqueued(before, body, id);
    lemma_with_queue(store, queue, before.enqueued(body, id));
    let after = before.enqueued(body, id);
    let p = before.position(other);
    assert(before.is_at(other, p));
    assert(after.is_at(other, p));
    lemma_message_position(after, other, p);
}

/// Every queue that the store holds meets the rule on types and
/// subscribers: a pull queue has no push settings, and a push queue has at
/// least one subscriber.
pub proof fn stored_queues_are_valid(store: StoreView, name: Seq<char>)
    requires
        store.wf(),
        store.holds(name),
    ensures
        store.queue(name).info.state() == QueueState::Valid,
        store.queue(name).info.name == Some(name),
        !store.queue(name).is_push() ==> store.queue(name).info.push is None,
        store.queue(name).is_push() ==> {
            &&& store.queue(name).info.push is Some
            &&& store.queue(name).info.push->0.subscribers is Some
            &&& store.queue(name).info.subscribers().len() >= 1
        },
{
    assert(store.is_at(name, store.position(name)));
    assert(store.queue(name).wf());
}

/// A request to create a pull queue with push settings is refused as a
/// type error, and one to create a push queue without subscribers as a
/// subscriber error, whether the configuration has a name or not; either
/// leaves the store as it is. A queue without a type is taken for a pull
/// queue.
pub proof fn create_refuses_invalid(store: StoreView, info: QueueInfoView)
    ensures
        (info.queue_type is None || info.queue_type == Some(QueueType::Pull)) && info.push is Some
            ==> create_verdict(info) == Err::<QueueInfoView, QueueError>(QueueError::TypeError),
        info.queue_type is Some && info.queue_type != Some(QueueType::Pull) && (info.push is None
            || info.push->0.subscribers is None || info.push->0.subscribers->0.len() == 0)
            ==> create_verdict(info) == Err::<QueueInfoView, QueueError>(
            QueueError::SubscriberError,
        ),
        create_verdict(info) is Err ==> store.created(info) == store,
{
}

/// A queue that has been created can be read under its name, with the
/// configuration that was handed in and its defaults; it holds no
/// message where it is new, and its messages where it was there before.
pub proof fn create_then_get(store: StoreView, info: QueueInfoView)
    requires
        store.wf(),
        create_verdict(info) is Ok,
    ensures
        ({
            let name = info.filled().name->0;
            let after = store.created(info);
            &&& after.wf()
            &&& after.holds(name)
            &&& after.queue(name).info == info.filled()
            &&& !store.holds(name) ==> after.queue(name).slots.len() == 0 && after.queue(
                name,
            ).counter == 0
            &&& store.holds(name) ==> after.queue(name).slots == store.queue(name).slots
                && after.queue(name).counter == store.queue(name).counter
            &&& info.filled().error_queue() is Some ==> after.holds(
                info.filled().error_queue()->0,
            )
        }),
{
    let filled = info.filled();
    let name = filled.name->0;
    lemma_put(store, filled);
    let put = store.put(filled);
    match filled.error_queue() {
        Some(other) => {
            lemma_ensured(put, other);
            if !put.holds(other) {
                lemma_put(put, QueueInfoView::pull(other));
                let after = put.ensured(other);
                let p = put.position(name);
                assert(put.is_at(name, p));
                assert(after.is_at(name, p));
                crate::mq::lemma_queue_position(after, name, p);
            }
        },
        None => {},
    }
}

/// A message as it is handed out under a token: reserved, counted once
/// more, and otherwise as it was.
pub open spec fn handed(msg: MessageView, token: Seq<char>) -> MessageView {
    MessageView {
        reservation_id: Some(token),
        state: Some(MessageState::Reserved),
        reserved_count: Some(bumped(msg.reserved_count)),
        ..msg
    }
}

/// Among the first `j` messages, a peek shows as many as are unreserved,
/// up to its limit.
pub proof fn lemma_heads_len(slots: Seq<SlotView>, limit: nat, j: int)
    requires
        0 <= j <= slots.len(),
    ensures
        heads(slots, limit, j).len() == if unreserved_before(slots, j) < limit {
            unreserved_before(slots, j)
        } else {
            limit
        },
    decreases j,
{
    if j > 0 {
        lemma_heads_len(slots, limit, j - 1);
    }
}

/// Among the first `j` messages, a reservation hands out what a peek
/// shows, each under its token.
pub proof fn lemma_leases_follow_heads(slots: Seq<SlotView>, tokens: Seq<Seq<char>>, j: int)
    requires
        0 <= j <= slots.len(),
        forall|i: int| 0 <= i < slots.len() ==> (#[trigger] slots[i]).wf(),
    ensures
        leases(slots, tokens, j).len() == heads(slots, tokens.len(), j).len(),
        forall|k: int|
            0 <= k < leases(slots, tokens, j).len() ==> (#[trigger] leases(slots, tokens, j)[k])
                == handed(heads(slots, tokens.len(), j)[k], tokens[k]),
    decreases j,
{
    if j > 0 {
        lemma_leases_follow_heads(slots, tokens, j - 1);
        lemma_heads_len(slots, tokens.len(), j - 1);
        assert(slots[j - 1].wf());
    }
}

/// A reservation hands out exactly the messages that a peek at the same
/// number would show, oldest first: as many as there are tokens, or as
/// many as are unreserved where these are fewer. Each is handed out
/// reserved under its own token and counted once more, and is otherwise
/// as the peek shows it.
pub proof fn reserve_hands_out_what_peek_shows(queue: QueueRecordView, tokens: Seq<Seq<char>>)
    requires
        queue.wf(),
    ensures
        queue.leases(tokens).len() == queue.peek(tokens.len()).len(),
        queue.leases(tokens).len() == if queue.unreserved_count() < tokens.len() {
            queue.unreserved_count()
        } else {
            tokens.len()
        },
        forall|k: int|
            0 <= k < queue.leases(tokens).len() ==> (#[trigger] queue.leases(tokens)[k]) == handed(
                queue.peek(tokens.len())[k],
                tokens[k],
            ),
{
    lemma_leases_follow_heads(queue.slots, tokens, queue.slots.len() as int);
    lemma_heads_len(queue.slots, tokens.len(), queue.slots.len() as int);
}

/// A reservation moves messages from the unreserved side to the reserved
/// side and nothing else: the queue holds the same messages in the same
/// order, each message that was reserved stays as it was, and a message
/// is reserved afterwards exactly if it was reserved before or is one of
/// those that were picked.
pub proof fn reserve_moves_the_oldest(queue: QueueRecordView, tokens: Seq<Seq<char>>, j: int)
    requires
        queue.wf(),
        0 <= j < queue.slots.len(),
    ensures
        queue.reserved(tokens).wf(),
        queue.reserved(tokens).slots.len() == queue.slots.len(),
        queue.reserved(tokens).counter == queue.counter,
        queue.reserved(tokens).slots[j].msg.id == queue.slots[j].msg.id,
        queue.reserved(tokens).slots[j].msg.body == queue.slots[j].msg.body,
        queue.reserved(tokens).slots[j].score == queue.slots[j].score,
        queue.reserved(tokens).slots[j].reserved == (queue.slots[j].reserved || is_picked(
            queue.slots,
            tokens.len(),
            j,
        )),
        queue.slots[j].reserved ==> queue.reserved(tokens).slots[j] == queue.slots[j],
{
    lemma_reserved(queue, tokens);
}

/// Deleting a message brings none back: what the queue did not hold
/// before, it does not hold afterwards.
pub proof fn lemma_delete_keeps_absent(
    store: StoreView,
    queue: Seq<char>,
    id: Seq<char>,
    other: Seq<char>,
)
    requires
        store.wf(),
        store.holds(queue),
        !store.queue(queue).holds(other),
    ensures
        store.deleted(queue, id).wf(),
        store.deleted(queue, id).holds(queue),
        !store.deleted(queue, id).queue(queue).holds(other),
        !store.deleted(queue, id).queue(queue).holds(id),
{
    let before = store.queue(queue);
    assert(store.is_at(queue, store.position(queue)));
    if before.holds(id) {
        let p = before.position(id);
        assert(before.is_at(id, p));
        lemma_without(before, id);
        lemma_with_queue(store, queue, before.without(id));
        let after = before.without(id);
        assert forall|i: int| !after.is_at(other, i) by {
            if 0 <= i < after.slots.len() {
                let a = if i < p { i } else { i + 1 };
                assert(!before.is_at(other, a));
            }
        }
    }
}

/// After the messages with a list of ids have been deleted, the queue
/// holds none of them.
pub proof fn deleted_messages_are_gone(
    store: StoreView,
    queue: Seq<char>,
    ids: Seq<Seq<char>>,
    k: int,
)
    requires
        store.wf(),
        store.holds(queue),
        0 <= k < ids.len(),
    ensures
        store.deleted_all(queue, ids).wf(),
        store.deleted_all(queue, ids).holds(queue),
        !store.deleted_all(queue, ids).queue(queue).holds(ids[k]),
    decreases ids.len(),
{
    let shorter = ids.drop_last();
    let before = store.deleted_all(queue, shorter);
    if shorter.len() > 0 {
        deleted_messages_are_gone(store, queue, shorter, if k < shorter.len() { k } else { 0 });
    }
    if k < shorter.len() {
        assert(shorter[k] == ids[k]);
        lemma_delete_keeps_absent(before, queue, ids.last(), ids[k]);
    } else {
        if before.queue(queue).holds(ids.last()) {
            assert(before.is_at(queue, before.position(queue)));
            lemma_without(before.queue(queue), ids.last());
            lemma_with_queue(before, queue, before.queue(queue).without(ids.last()));
        }
    }
}

/// Deleting a queue is idempotent and touches no other queue: afterwards
/// there is no queue of the name, a second deletion changes nothing more,
/// and every queue of another name is held as before, with all that it
/// holds.
pub proof fn delete_queue_is_idempotent(store: StoreView, name: Seq<char>, other: Seq<char>)
    requires
        store.wf(),
    ensures
        store.removed(name).wf(),
        !store.removed(name).holds(name),
        store.removed(name).removed(name) == store.removed(name),
        other != name ==> store.removed(name).holds(other) == store.holds(other),
        other != name && store.holds(other) ==> store.removed(name).queue(other) == store.queue(
            other,
        ),
{
    if store.holds(name) {
        lemma_removed(store, name);
        let p = store.position(name);
        let after = store.removed(name);
        assert(store.is_at(name, p));
        if other != name {
            if store.holds(other) {
                let k = store.position(other);
                assert(store.is_at(other, k));
                let a = if k < p { k } else { k - 1 };
                assert(after.is_at(other, a));
                crate::mq::lemma_queue_position(after, other, a);
            }
            if after.holds(other) {
                let a = after.position(other);
                assert(after.is_at(other, a));
                let k = if a < p { a } else { a + 1 };
                assert(store.is_at(other, k));
            }
        }
    }
}

} // verus!
