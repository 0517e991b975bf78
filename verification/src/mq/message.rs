//! The reservation engine, first part: enqueue, read, touch, release and
//! delete, each on one queue of the store.

use vstd::prelude::*;
use crate::error::QueueError;
use crate::ids::{fresh_id, is_object_id};
use crate::message::{
    Message, MessageDeleteBodyRequest, MessageState, MessageView, PushMessage, PushMessageView,
};
use crate::mq::{
    lemma_message_position, lemma_queue_position, QueueRecord, QueueRecordView, Slot, SlotView,
    Store, StoreView,
};

verus! {

impl SlotView {
    /// The message under a new reservation token.
    pub open spec fn renewed(self, token: Seq<char>) -> SlotView {
        SlotView { msg: MessageView { reservation_id: Some(token), ..self.msg }, ..self }
    }

    /// The message back on the unreserved side, without a token.
    pub open spec fn released(self) -> SlotView {
        SlotView {
            reserved: false,
            msg: MessageView {
                reservation_id: None,
                state: Some(MessageState::Unreserved),
                ..self.msg
            },
            ..self
        }
    }
}

impl QueueRecordView {
    /// The stored message with the id.
    pub open spec fn slot(self, id: Seq<char>) -> SlotView
        recommends
            self.holds(id),
    {
        self.slots[self.position(id)]
    }

    /// The queue with one stored message replaced.
    pub open spec fn with_slot(self, id: Seq<char>, slot: SlotView) -> QueueRecordView
        recommends
            self.holds(id),
    {
        QueueRecordView { slots: self.slots.update(self.position(id), slot), ..self }
    }

    /// The queue without the message with the id.
    pub open spec fn without(self, id: Seq<char>) -> QueueRecordView
        recommends
            self.holds(id),
    {
        QueueRecordView { slots: self.slots.remove(self.position(id)), ..self }
    }

    /// The queue without any message. The sequence counter stays.
    pub open spec fn cleared(self) -> QueueRecordView {
        QueueRecordView { slots: Seq::empty(), ..self }
    }
}

impl StoreView {
    /// The stored message with the id in the queue with the name, or what
    /// is missing.
    pub open spec fn locate(self, queue: Seq<char>, id: Seq<char>) -> Result<SlotView, QueueError> {
        if !self.holds(queue) {
            Err(QueueError::QueueNotFound)
        } else if !self.queue(queue).holds(id) {
            Err(QueueError::MessageNotFound)
        } else {
            Ok(self.queue(queue).slot(id))
        }
    }

    /// Whether the token gives its holder the right to renew the
    /// reservation of the message: the message exists, is reserved, and is
    /// reserved under this token.
    pub open spec fn ownership(self, queue: Seq<char>, id: Seq<char>, token: Seq<char>) -> Result<
        (),
        QueueError,
    > {
        match self.locate(queue, id) {
            Err(e) => Err(e),
            Ok(slot) => if slot.owned_by(token) {
                Ok(())
            } else {
                Err(QueueError::OwnershipError)
            },
        }
    }

    /// The store with one stored message replaced.
    pub open spec fn with_slot(self, queue: Seq<char>, id: Seq<char>, slot: SlotView) -> StoreView
        recommends
            self.locate(queue, id) is Ok,
    {
        self.with_queue(queue, self.queue(queue).with_slot(id, slot))
    }

    /// The store after a touch: where the token presented owns the
    /// message, the message is reserved under the new token; otherwise
    /// nothing has changed.
    pub open spec fn touched(
        self,
        queue: Seq<char>,
        id: Seq<char>,
        presented: Seq<char>,
        token: Seq<char>,
    ) -> StoreView {
        if self.ownership(queue, id, presented) is Ok {
            self.with_slot(queue, id, self.queue(queue).slot(id).renewed(token))
        } else {
            self
        }
    }

    /// The store after a release: where the token presented owns the
    /// message, the message is unreserved again, at the place that its
    /// sequence number gives it; otherwise nothing has changed.
    pub open spec fn released(self, queue: Seq<char>, id: Seq<char>, presented: Seq<char>) -> StoreView {
        if self.ownership(queue, id, presented) is Ok {
            self.with_slot(queue, id, self.queue(queue).slot(id).released())
        } else {
            self
        }
    }

    /// The store after the message with the id has been deleted from the
    /// queue with the name, if there is such a message.
    pub open spec fn deleted(self, queue: Seq<char>, id: Seq<char>) -> StoreView {
        if self.locate(queue, id) is Ok {
            self.with_queue(queue, self.queue(queue).without(id))
        } else {
            self
        }
    }

    /// The store after every message of the queue with the name has been
    /// deleted, if there is such a queue.
    pub open spec fn cleared(self, queue: Seq<char>) -> StoreView {
        if self.holds(queue) {
            self.with_queue(queue, self.queue(queue).cleared())
        } else {
            self
        }
    }
}

/// Replacing a queue by a well-formed one of the same name leaves the store
/// well-formed.
pub proof fn lemma_with_queue(store: StoreView, name: Seq<char>, queue: QueueRecordView)
    requires
        store.wf(),
        store.holds(name),
        queue.wf(),
        queue.info.name == Some(name),
    ensures
        store.with_queue(name, queue).wf(),
        store.with_queue(name, queue).holds(name),
        store.with_queue(name, queue).queue(name) == queue,
        store.with_queue(name, queue).queues.len() == store.queues.len(),
{
    let p = store.position(name);
    let after = store.with_queue(name, queue);
    assert(store.is_at(name, p));
    assert forall|i: int, j: int| 0 <= i < j < after.queues.len() implies (
    #[trigger] after.queues[i]).info.name != (#[trigger] after.queues[j]).info.name by {
        assert(store.queues[i].info.name != store.queues[j].info.name);
    }
    assert(after.is_at(name, p));
    lemma_queue_position(after, name, p);
}

impl Slot {
    fn renew(&mut self, token: String)
        ensures
            final(self)@ == old(self)@.renewed(token@),
    {
        self.msg.reservation_id = Some(token);
    }

    fn release(&mut self)
        ensures
            final(self)@ == old(self)@.released(),
    {
        self.reserved = false;
        self.msg.reservation_id = None;
        self.msg.state = Some(MessageState::Unreserved);
    }

    fn owned_by(&self, token: &String) -> (owned: bool)
        ensures
            owned == self@.owned_by(token@),
    {
        self.reserved && match &self.msg.reservation_id {
            Some(held) => *held == *token,
            None => false,
        }
    }
}

impl QueueRecord {
    fn renew_at(&mut self, i: usize, token: String)
        requires
            i < old(self)@.slots.len(),
        ensures
            final(self)@ == (QueueRecordView {
                slots: old(self)@.slots.update(i as int, old(self)@.slots[i as int].renewed(token@)),
                ..old(self)@
            }),
    {
        self.slots[i].renew(token);
        assert(self@.slots =~= old(self)@.slots.update(
            i as int,
            old(self)@.slots[i as int].renewed(token@),
        ));
    }

    fn release_at(&mut self, i: usize)
        requires
            i < old(self)@.slots.len(),
        ensures
            final(self)@ == (QueueRecordView {
                slots: old(self)@.slots.update(i as int, old(self)@.slots[i as int].released()),
                ..old(self)@
            }),
    {
        self.slots[i].release();
        assert(self@.slots =~= old(self)@.slots.update(
            i as int,
            old(self)@.slots[i as int].released(),
        ));
    }

    fn remove_at(&mut self, i: usize)
        requires
            i < old(self)@.slots.len(),
        ensures
            final(self)@ == (QueueRecordView {
                slots: old(self)@.slots.remove(i as int),
                ..old(self)@
            }),
    {
        let _ = self.slots.remove(i);
        assert(self@.slots =~= old(self)@.slots.remove(i as int));
    }

    fn clear(&mut self)
        ensures
            final(self)@ == old(self)@.cleared(),
    {
        self.slots = Vec::new();
        assert(self@.slots =~= Seq::empty());
    }
}

/// Replacing a stored message by one with the same id and sequence number
/// leaves the queue well-formed.
pub proof fn lemma_with_slot(queue: QueueRecordView, id: Seq<char>, slot: SlotView)
    requires
        queue.wf(),
        queue.holds(id),
        slot.wf(),
        slot.msg.id == Some(id),
        slot.score == queue.slot(id).score,
    ensures
        queue.with_slot(id, slot).wf(),
        queue.with_slot(id, slot).holds(id),
        queue.with_slot(id, slot).slot(id) == slot,
{
    let p = queue.position(id);
    let after = queue.with_slot(id, slot);
    assert(queue.is_at(id, p));
    assert forall|i: int| 0 <= i < after.slots.len() implies (#[trigger] after.slots[i]).wf() by {
        if i != p {
            assert(queue.slots[i].wf());
        }
    }
    assert forall|i: int| 0 <= i < after.slots.len() implies (#[trigger] after.slots[i]).score
        < after.counter by {
        assert(queue.slots[i].score < queue.counter);
    }
    assert forall|i: int, j: int| 0 <= i < j < after.slots.len() implies (
    #[trigger] after.slots[i]).score < (#[trigger] after.slots[j]).score by {
        assert(queue.slots[i].score < queue.slots[j].score);
    }
    assert forall|i: int, j: int| 0 <= i < j < after.slots.len() implies (
    #[trigger] after.slots[i]).msg.id != (#[trigger] after.slots[j]).msg.id by {
        assert(queue.slots[i].msg.id != queue.slots[j].msg.id);
    }
    assert(after.is_at(id, p));
    lemma_message_position(after, id, p);
}

/// Taking a message out leaves the queue well-formed, and the queue no
/// longer holds a message with that id.
pub proof fn lemma_without(queue: QueueRecordView, id: Seq<char>)
    requires
        queue.wf(),
        queue.holds(id),
    ensures
        queue.without(id).wf(),
        !queue.without(id).holds(id),
        queue.without(id).slots.len() == queue.slots.len() - 1,
{
    let p = queue.position(id);
    let after = queue.without(id);
    assert(queue.is_at(id, p));
    assert forall|i: int| 0 <= i < after.slots.len() implies (#[trigger] after.slots[i]).wf() && (
    #[trigger] after.slots[i]).score < after.counter by {
        if i < p {
            assert(queue.slots[i].wf());
            assert(queue.slots[i].score < queue.counter);
        } else {
            assert(queue.slots[i + 1].wf());
            assert(queue.slots[i + 1].score < queue.counter);
        }
    }
    assert forall|i: int, j: int| 0 <= i < j < after.slots.len() implies (
    #[trigger] after.slots[i]).score < (#[trigger] after.slots[j]).score && (
    #[trigger] after.slots[i]).msg.id != (#[trigger] after.slots[j]).msg.id by {
        let a = if i < p { i } else { i + 1 };
        let b = if j < p { j } else { j + 1 };
        assert(queue.slots[a].score < queue.slots[b].score);
        assert(queue.slots[a].msg.id != queue.slots[b].msg.id);
    }
    assert forall|i: int| !after.is_at(id, i) by {
        if 0 <= i < after.slots.len() {
            let a = if i < p { i } else { i + 1 };
            if a < p {
                assert(queue.slots[a].msg.id != queue.slots[p].msg.id);
            } else {
                assert(queue.slots[p].msg.id != queue.slots[a].msg.id);
            }
        }
    }
}

/// The message with the id in the queue with the name.
pub fn get_message(store: &Store, queue_id: &String, message_id: &String) -> (found: Result<
    Message,
    QueueError,
>)
    requires
        store@.wf(),
    ensures
        match found {
            Ok(msg) => store@.locate(queue_id@, message_id@) is Ok && msg@ == store@.locate(
                queue_id@,
                message_id@,
            )->Ok_0.msg,
            Err(e) => store@.locate(queue_id@, message_id@) == Err::<SlotView, QueueError>(e),
        },
{
    let qi = match store.find(queue_id) {
        Some(qi) => qi,
        None => { return Err(QueueError::QueueNotFound); },
    };
    let mi = match store.queues[qi].find(message_id) {
        Some(mi) => mi,
        None => { return Err(QueueError::MessageNotFound); },
    };
    Ok(store.queues[qi].slots[mi].msg.clone())
}

/// Whether the token owns the reservation of the message.
pub fn check_ownership(
    store: &Store,
    queue_id: &String,
    message_id: &String,
    reservation_id: &String,
) -> (verdict: Result<(), QueueError>)
    requires
        store@.wf(),
    ensures
        verdict == store@.ownership(queue_id@, message_id@, reservation_id@),
{
    let qi = match store.find(queue_id) {
        Some(qi) => qi,
        None => { return Err(QueueError::QueueNotFound); },
    };
    let mi = match store.queues[qi].find(message_id) {
        Some(mi) => mi,
        None => { return Err(QueueError::MessageNotFound); },
    };
    if store.queues[qi].slots[mi].owned_by(reservation_id) {
        Ok(())
    } else {
        Err(QueueError::OwnershipError)
    }
}

/// Renews the reservation of a message under a token that the caller
/// brings. Where the token presented owns the message, the message is
/// reserved under the new token from now on, and the new token is
/// returned. Otherwise nothing changes.
pub fn touch_with_token(
    store: &mut Store,
    queue_id: &String,
    message_id: &String,
    reservation_id: &String,
    token: String,
) -> (renewed: Result<String, QueueError>)
    requires
        old(store)@.wf(),
    ensures
        final(store)@.wf(),
        final(store)@ == old(store)@.touched(queue_id@, message_id@, reservation_id@, token@),
        match renewed {
            Ok(t) => old(store)@.ownership(queue_id@, message_id@, reservation_id@) is Ok && t@
                == token@,
            Err(e) => old(store)@.ownership(queue_id@, message_id@, reservation_id@) == Err::<
                (),
                QueueError,
            >(e),
        },
{
    let qi = match store.find(queue_id) {
        Some(qi) => qi,
        None => { return Err(QueueError::QueueNotFound); },
    };
    let mi = match store.queues[qi].find(message_id) {
        Some(mi) => mi,
        None => { return Err(QueueError::MessageNotFound); },
    };
    if !store.queues[qi].slots[mi].owned_by(reservation_id) {
        return Err(QueueError::OwnershipError);
    }
    let out = token.clone();
    store.queues[qi].renew_at(mi, token);
    proof {
        let before = old(store)@;
        let queue = before.queue(queue_id@);
        let slot = queue.slot(message_id@).renewed(token@);
        assert(queue.slot(message_id@).wf());
        lemma_with_slot(queue, message_id@, slot);
        lemma_with_queue(before, queue_id@, queue.with_slot(message_id@, slot));
        assert(store@.queues =~= before.with_slot(queue_id@, message_id@, slot).queues);
    }
    Ok(out)
}

/// Renews the reservation of a message: where the token presented owns the
/// message, a fresh token takes its place and is returned. The new token
/// is never the one that was presented. A token that does not own the
/// message changes nothing and is reported, as is a missing queue or
/// message.
pub fn touch_message(
    store: &mut Store,
    queue_id: &String,
    message_id: &String,
    reservation_id: &String,
) -> (renewed: Result<String, QueueError>)
    requires
        old(store)@.wf(),
    ensures
        final(store)@.wf(),
        match renewed {
            Ok(token) => {
                &&& old(store)@.ownership(queue_id@, message_id@, reservation_id@) is Ok
                &&& is_object_id(token@)
                &&& token@ != reservation_id@
                &&& final(store)@ == old(store)@.touched(
                    queue_id@,
                    message_id@,
                    reservation_id@,
                    token@,
                )
            },
            Err(e) => {
                &&& final(store)@ == old(store)@
                &&& match old(store)@.ownership(queue_id@, message_id@, reservation_id@) {
                    Ok(_) => e == QueueError::StoreConflict,
                    Err(refusal) => e == refusal,
                }
            },
        },
{
    match check_ownership(store, queue_id, message_id, reservation_id) {
        Ok(_) => {},
        Err(e) => { return Err(e); },
    }
    match fresh_id() {
        Some(token) => if token == *reservation_id {
            Err(QueueError::StoreConflict)
        } else {
            touch_with_token(store, queue_id, message_id, reservation_id, token)
        },
        None => Err(QueueError::StoreConflict),
    }
}

impl StoreView {
    /// What a release reports: `true` where the token presented owns the
    /// message, `false` where it does not or the message is not reserved,
    /// and an error where the queue or the message is missing.
    pub open spec fn release_verdict(self, queue: Seq<char>, id: Seq<char>, presented: Seq<char>) -> Result<
        bool,
        QueueError,
    > {
        match self.locate(queue, id) {
            Err(e) => Err(e),
            Ok(slot) => Ok(slot.owned_by(presented)),
        }
    }

    /// What a deletion reports: whether the queue held the message, or an
    /// error where the queue is missing.
    pub open spec fn delete_verdict(self, queue: Seq<char>, id: Seq<char>) -> Result<
        bool,
        QueueError,
    > {
        if !self.holds(queue) {
            Err(QueueError::QueueNotFound)
        } else {
            Ok(self.queue(queue).holds(id))
        }
    }
}

/// Gives a reserved message back: where the token presented owns it, the
/// message is unreserved again and keeps its place among the messages of
/// the queue.
pub fn release_message(
    store: &mut Store,
    queue_name: &String,
    message_id: &String,
    reservation_id: &String,
) -> (released: Result<bool, QueueError>)
    requires
        old(store)@.wf(),
    ensures
        final(store)@.wf(),
        final(store)@ == old(store)@.released(queue_name@, message_id@, reservation_id@),
        released == old(store)@.release_verdict(queue_name@, message_id@, reservation_id@),
{
    let qi = match store.find(queue_name) {
        Some(qi) => qi,
        None => { return Err(QueueError::QueueNotFound); },
    };
    let mi = match store.queues[qi].find(message_id) {
        Some(mi) => mi,
        None => { return Err(QueueError::MessageNotFound); },
    };
    if !store.queues[qi].slots[mi].owned_by(reservation_id) {
        return Ok(false);
    }
    store.queues[qi].release_at(mi);
    proof {
        let before = old(store)@;
        let queue = before.queue(queue_name@);
        let slot = queue.slot(message_id@).released();
        assert(queue.slot(message_id@).wf());
        lemma_with_slot(queue, message_id@, slot);
        lemma_with_queue(before, queue_name@, queue.with_slot(message_id@, slot));
        assert(store@.queues =~= before.with_slot(queue_name@, message_id@, slot).queues);
    }
    Ok(true)
}

/// Deletes the message with the id from the queue with the name, whether
/// it is reserved or not, together with its delivery outcomes.
pub fn delete(store: &mut Store, queue_name: String, message_id: String) -> (deleted: Result<
    bool,
    QueueError,
>)
    requires
        old(store)@.wf(),
    ensures
        final(store)@.wf(),
        final(store)@ == old(store)@.deleted(queue_name@, message_id@),
        deleted == old(store)@.delete_verdict(queue_name@, message_id@),
{
    let qi = match store.find(&queue_name) {
        Some(qi) => qi,
        None => { return Err(QueueError::QueueNotFound); },
    };
    let mi = match store.queues[qi].find(&message_id) {
        Some(mi) => mi,
        None => { return Ok(false); },
    };
    store.queues[qi].remove_at(mi);
    proof {
        let before = old(store)@;
        let queue = before.queue(queue_name@);
        lemma_without(queue, message_id@);
        lemma_with_queue(before, queue_name@, queue.without(message_id@));
        assert(store@.queues =~= before.deleted(queue_name@, message_id@).queues);
    }
    Ok(true)
}

/// Deletes a message from the queue with the name. A message without an
/// id is in no queue.
pub fn delete_message(store: &mut Store, queue_name: &String, message: &Message) -> (deleted: Result<
    bool,
    QueueError,
>)
    requires
        old(store)@.wf(),
    ensures
        final(store)@.wf(),
        match message@.id {
            Some(id) => {
                &&& final(store)@ == old(store)@.deleted(queue_name@, id)
                &&& deleted == old(store)@.delete_verdict(queue_name@, id)
            },
            None => {
                &&& final(store)@ == old(store)@
                &&& deleted == Err::<bool, QueueError>(QueueError::MessageNotFound)
            },
        },
{
    match &message.id {
        Some(id) => delete(store, queue_name.clone(), id.clone()),
        None => Err(QueueError::MessageNotFound),
    }
}

/// The ids that a list of deletion requests names.
pub open spec fn requested_ids(messages: Seq<MessageDeleteBodyRequest>) -> Seq<Seq<char>> {
    Seq::new(messages.len(), |i: int| messages[i].id@)
}

impl StoreView {
    /// The store after the messages with the ids have been deleted from the
    /// queue with the name, one after the other.
    pub open spec fn deleted_all(self, queue: Seq<char>, ids: Seq<Seq<char>>) -> StoreView
        decreases ids.len(),
    {
        if ids.len() == 0 {
            self
        } else {
            self.deleted_all(queue, ids.drop_last()).deleted(queue, ids.last())
        }
    }

    /// For each of the ids, whether the queue still held a message with it
    /// when its turn came.
    pub open spec fn deletions(self, queue: Seq<char>, ids: Seq<Seq<char>>) -> Seq<bool>
        decreases ids.len(),
    {
        if ids.len() == 0 {
            Seq::empty()
        } else {
            self.deletions(queue, ids.drop_last()).push(
                self.deleted_all(queue, ids.drop_last()).queue(queue).holds(ids.last()),
            )
        }
    }
}

/// Deletes the messages with the ids from a queue that the store holds, in
/// the order of the ids.
pub(super) fn delete_each(store: &mut Store, queue_name: &String, ids: &Vec<String>) -> (flags: Vec<bool>)
    requires
        old(store)@.wf(),
        old(store)@.holds(queue_name@),
    ensures
        final(store)@.wf(),
        final(store)@.holds(queue_name@),
        final(store)@ == old(store)@.deleted_all(queue_name@, ids.deep_view()),
        flags@ == old(store)@.deletions(queue_name@, ids.deep_view()),
{
    let ghost all = ids.deep_view();
    let mut flags: Vec<bool> = Vec::new();
    let mut k: usize = 0;
    while k < ids.len()
        invariant
            k <= ids.len(),
            all == ids.deep_view(),
            all.len() == ids.len(),
            old(store)@.wf(),
            store@.wf(),
            store@.holds(queue_name@),
            store@ == old(store)@.deleted_all(queue_name@, all.take(k as int)),
            flags@ == old(store)@.deletions(queue_name@, all.take(k as int)),
        decreases ids.len() - k,
    {
        let ghost before = store@;
        let outcome = delete(store, queue_name.clone(), ids[k].clone());
        proof {
            assert(all.take(k as int + 1).drop_last() =~= all.take(k as int));
            assert(all.take(k as int + 1).last() == all[k as int]);
            assert(ids[k as int]@ == all[k as int]);
            if before.queue(queue_name@).holds(all[k as int]) {
                lemma_without(before.queue(queue_name@), all[k as int]);
                lemma_with_queue(
                    before,
                    queue_name@,
                    before.queue(queue_name@).without(all[k as int]),
                );
            }
        }
        let flag = match outcome {
            Ok(flag) => flag,
            Err(_) => false,
        };
        flags.push(flag);
        k = k + 1;
    }
    proof {
        assert(all.take(k as int) =~= all);
    }
    flags
}

/// Deletes the messages that the requests name from the queue with the
/// name, in the order of the requests, and says of each whether the queue
/// held it.
pub fn delete_messages(
    store: &mut Store,
    queue_name: String,
    messages: &Vec<MessageDeleteBodyRequest>,
) -> (deleted: Result<Vec<bool>, QueueError>)
    requires
        old(store)@.wf(),
    ensures
        final(store)@.wf(),
        match deleted {
            Ok(flags) => {
                &&& old(store)@.holds(queue_name@)
                &&& final(store)@ == old(store)@.deleted_all(
                    queue_name@,
                    requested_ids(messages@),
                )
                &&& flags@ == old(store)@.deletions(queue_name@, requested_ids(messages@))
            },
            Err(e) => {
                &&& !old(store)@.holds(queue_name@)
                &&& e == QueueError::QueueNotFound
                &&& final(store)@ == old(store)@
            },
        },
{
    if store.find(&queue_name).is_none() {
        return Err(QueueError::QueueNotFound);
    }
    let mut ids: Vec<String> = Vec::new();
    let mut k: usize = 0;
    while k < messages.len()
        invariant
            k <= messages.len(),
            ids.len() == k,
            forall|i: int| 0 <= i < k ==> (#[trigger] ids[i])@ == messages[i].id@,
        decreases messages.len() - k,
    {
        ids.push(messages[k].id.clone());
        k = k + 1;
    }
    assert(ids.deep_view() =~= requested_ids(messages@));
    Ok(delete_each(store, &queue_name, &ids))
}

/// Deletes every message of the queue with the name, reserved or not. The
/// sequence counter of the queue stays as it is.
pub fn clear_messages(store: &mut Store, queue_name: &String) -> (cleared: Result<bool, QueueError>)
    requires
        old(store)@.wf(),
    ensures
        final(store)@.wf(),
        final(store)@ == old(store)@.cleared(queue_name@),
        cleared == if old(store)@.holds(queue_name@) {
            Ok::<bool, QueueError>(true)
        } else {
            Err::<bool, QueueError>(QueueError::QueueNotFound)
        },
{
    let qi = match store.find(queue_name) {
        Some(qi) => qi,
        None => { return Err(QueueError::QueueNotFound); },
    };
    store.queues[qi].clear();
    proof {
        let before = old(store)@;
        let queue = before.queue(queue_name@);
        lemma_with_queue(before, queue_name@, queue.cleared());
        assert(store@.queues =~= before.cleared(queue_name@).queues);
    }
    Ok(true)
}

/// How often a new message asks for a fresh id before it gives up.
pub const ID_ATTEMPTS: u32 = 3;

/// The stored form of a new message: unreserved, never reserved before,
/// known under its id, which is also the id of its source.
pub open spec fn fresh_slot(score: usize, body: Seq<char>, id: Seq<char>) -> SlotView {
    SlotView {
        score,
        reserved: false,
        msg: MessageView {
            body,
            delay: None,
            id: Some(id),
            reserved_count: None,
            reservation_id: None,
            source_msg_id: Some(id),
            state: Some(MessageState::Unreserved),
        },
        deliveries: Seq::empty(),
    }
}

impl QueueRecordView {
    /// The queue with a new message behind all others. The message gets
    /// the sequence number that the counter shows, and the counter moves
    /// on.
    pub open spec fn enqueued(self, body: Seq<char>, id: Seq<char>) -> QueueRecordView {
        QueueRecordView {
            slots: self.slots.push(fresh_slot(self.counter, body, id)),
            counter: (self.counter + 1) as usize,
            ..self
        }
    }
}

impl StoreView {
    /// Whether the queue with the name can take a new message under the
    /// id: the queue exists, its counter has a number left, and it holds no
    /// message with this id.
    pub open spec fn admission(self, queue: Seq<char>, id: Seq<char>) -> Result<(), QueueError> {
        if !self.holds(queue) {
            Err(QueueError::QueueNotFound)
        } else if self.queue(queue).counter == usize::MAX {
            Err(QueueError::SequenceExhausted)
        } else if self.queue(queue).holds(id) {
            Err(QueueError::StoreConflict)
        } else {
            Ok(())
        }
    }

    /// The store after a message with the body has been enqueued under the
    /// id, where the queue can take it; otherwise the store as it is.
    pub open spec fn enqueued(self, queue: Seq<char>, body: Seq<char>, id: Seq<char>) -> StoreView {
        if self.admission(queue, id) is Ok {
            self.with_queue(queue, self.queue(queue).enqueued(body, id))
        } else {
            self
        }
    }

    /// What is to be broadcast once the message is enqueued: for a push
    /// queue, the message with the configuration of its queue; for a pull
    /// queue, nothing.
    pub open spec fn broadcast(self, queue: Seq<char>, body: Seq<char>, id: Seq<char>) -> Option<
        PushMessageView,
    > {
        if self.queue(queue).is_push() {
            Some(
                PushMessageView {
                    queue_info: self.queue(queue).info,
                    msg: fresh_slot(self.queue(queue).counter, body, id).msg,
                },
            )
        } else {
            None
        }
    }
}

/// A new message at the end of a queue keeps the queue well-formed.
pub proof fn lemma_enqueued(queue: QueueRecordView, body: Seq<char>, id: Seq<char>)
    requires
        queue.wf(),
        !queue.holds(id),
        queue.counter < usize::MAX,
    ensures
        queue.enqueued(body, id).wf(),
        queue.enqueued(body, id).holds(id),
        queue.enqueued(body, id).slot(id) == fresh_slot(queue.counter, body, id),
{
    let after = queue.enqueued(body, id);
    let last = queue.slots.len() as int;
    assert forall|i: int| 0 <= i < after.slots.len() implies (#[trigger] after.slots[i]).wf() && (
    #[trigger] after.slots[i]).score < after.counter by {
        if i < last {
            assert(queue.slots[i].wf());
            assert(queue.slots[i].score < queue.counter);
        }
    }
    assert forall|i: int, j: int| 0 <= i < j < after.slots.len() implies (
    #[trigger] after.slots[i]).score < (#[trigger] after.slots[j]).score && (
    #[trigger] after.slots[i]).msg.id != (#[trigger] after.slots[j]).msg.id by {
        if j < last {
            assert(queue.slots[i].score < queue.slots[j].score);
            assert(queue.slots[i].msg.id != queue.slots[j].msg.id);
        } else {
            assert(queue.slots[i].score < queue.counter);
            assert(!queue.is_at(id, i));
        }
    }
    assert(after.is_at(id, last));
    lemma_message_position(after, id, last);
}

impl QueueRecord {
    fn append(&mut self, body: String, id: String)
        requires
            old(self)@.counter < usize::MAX,
        ensures
            final(self)@ == old(self)@.enqueued(body@, id@),
    {
        let msg = Message {
            body,
            delay: None,
            id: Some(id.clone()),
            reserved_count: None,
            reservation_id: None,
            source_msg_id: Some(id),
            state: Some(MessageState::Unreserved),
        };
        let slot = Slot { score: self.counter, reserved: false, msg, deliveries: Vec::new() };
        assert(slot@ == fresh_slot(self.counter, body@, id@)) by {
            assert(slot.deliveries.deep_view() =~= Seq::empty());
        }
        self.slots.push(slot);
        self.counter = self.counter + 1;
        assert(self@.slots =~= old(self)@.slots.push(fresh_slot(old(self)@.counter, body@, id@)));
    }
}

/// Enqueues a message with the body under an id that the caller brings.
/// The message goes behind all others of the queue. For a push queue the
/// result holds what is to be broadcast to the delivery engine.
pub fn enqueue_with_id(store: &mut Store, queue_name: &String, body: &String, id: String) -> (sent:
    Result<Option<PushMessage>, QueueError>)
    requires
        old(store)@.wf(),
    ensures
        final(store)@.wf(),
        final(store)@ == old(store)@.enqueued(queue_name@, body@, id@),
        match sent {
            Ok(broadcast) => {
                &&& old(store)@.admission(queue_name@, id@) is Ok
                &&& broadcast.deep_view() == old(store)@.broadcast(queue_name@, body@, id@)
            },
            Err(e) => old(store)@.admission(queue_name@, id@) == Err::<(), QueueError>(e),
        },
{
    let qi = match store.find(queue_name) {
        Some(qi) => qi,
        None => { return Err(QueueError::QueueNotFound); },
    };
    if store.queues[qi].counter == usize::MAX {
        return Err(QueueError::SequenceExhausted);
    }
    if store.queues[qi].find(&id).is_some() {
        return Err(QueueError::StoreConflict);
    }
    let broadcast = if store.queues[qi].is_push() {
        let msg = Message {
            body: body.clone(),
            delay: None,
            id: Some(id.clone()),
            reserved_count: None,
            reservation_id: None,
            source_msg_id: Some(id.clone()),
            state: Some(MessageState::Unreserved),
        };
        Some(PushMessage { queue_info: store.queues[qi].info.clone(), msg })
    } else {
        None
    };
    store.queues[qi].append(body.clone(), id);
    proof {
        let before = old(store)@;
        let queue = before.queue(queue_name@);
        lemma_enqueued(queue, body@, id@);
        lemma_with_queue(before, queue_name@, queue.enqueued(body@, id@));
        assert(store@.queues =~= before.enqueued(queue_name@, body@, id@).queues);
    }
    Ok(broadcast)
}

/// What became of a message that was handed in: the id under which it is
/// stored, and what is to be broadcast for it.
#[derive(Debug)]
pub struct Enqueued {
    pub id: String,
    pub broadcast: Option<PushMessage>,
}

/// Enqueues the body of a message under a fresh id and returns the id. For
/// a push queue the result also holds what is to be broadcast to the
/// delivery engine. An id that the queue already holds is not used: another
/// is asked for, a few times at most.
pub fn push_message(store: &mut Store, queue_name: String, message: Message) -> (sent: Result<
    Enqueued,
    QueueError,
>)
    requires
        old(store)@.wf(),
    ensures
        final(store)@.wf(),
        match sent {
            Ok(enqueued) => {
                &&& is_object_id(enqueued.id@)
                &&& old(store)@.admission(queue_name@, enqueued.id@) is Ok
                &&& final(store)@ == old(store)@.enqueued(
                    queue_name@,
                    message@.body,
                    enqueued.id@,
                )
                &&& enqueued.broadcast.deep_view() == old(store)@.broadcast(
                    queue_name@,
                    message@.body,
                    enqueued.id@,
                )
            },
            Err(e) => {
                &&& final(store)@ == old(store)@
                &&& if !old(store)@.holds(queue_name@) {
                    e == QueueError::QueueNotFound
                } else if old(store)@.queue(queue_name@).counter == usize::MAX {
                    e == QueueError::SequenceExhausted
                } else {
                    e == QueueError::StoreConflict
                }
            },
        },
{
    let mut attempt: u32 = 0;
    while attempt < ID_ATTEMPTS
        invariant
            store@ == old(store)@,
            store@.wf(),
        decreases ID_ATTEMPTS - attempt,
    {
        let id = match fresh_id() {
            Some(id) => id,
            None => { break ; },
        };
        let kept = id.clone();
        match enqueue_with_id(store, &queue_name, &message.body, id) {
            Ok(broadcast) => { return Ok(Enqueued { id: kept, broadcast }); },
            Err(QueueError::StoreConflict) => {},
            Err(e) => { return Err(e); },
        }
        attempt = attempt + 1;
    }
    match store.find(&queue_name) {
        Some(qi) => if store.queues[qi].counter == usize::MAX {
            Err(QueueError::SequenceExhausted)
        } else {
            Err(QueueError::StoreConflict)
        },
        None => Err(QueueError::QueueNotFound),
    }
}

} // verus!
