//! The delivery status tracker: the latest outcome of the deliveries of a
//! message to each subscriber address, kept with the message.

use vstd::prelude::*;
use crate::error::QueueError;
use crate::mq::message::{lemma_with_queue, lemma_with_slot};
use crate::mq::{QueueRecord, QueueRecordView, Slot, SlotView, Store, StoreView};
use crate::queue_info::{PushStatus, PushStatusView};

verus! {

impl SlotView {
    /// Whether the delivery outcome at a place is for the address.
    pub open spec fn delivery_at(self, url: Seq<char>, i: int) -> bool {
        0 <= i < self.deliveries.len() && self.deliveries[i].url == url
    }

    /// Whether there is a delivery outcome for the address.
    pub open spec fn has_delivery(self, url: Seq<char>) -> bool {
        exists|i: int| self.delivery_at(url, i)
    }

    /// The place of the delivery outcome for the address.
    pub open spec fn delivery_position(self, url: Seq<char>) -> int
        recommends
            self.has_delivery(url),
    {
        choose|i: int| self.delivery_at(url, i)
    }

    /// The message with a delivery outcome recorded: in the place of the
    /// earlier outcome for the same address, or behind the others where
    /// there is none.
    pub open spec fn recorded(self, status: PushStatusView) -> SlotView {
        SlotView {
            deliveries: if self.has_delivery(status.url) {
                self.deliveries.update(self.delivery_position(status.url), status)
            } else {
                self.deliveries.push(status)
            },
            ..self
        }
    }
}

impl StoreView {
    /// The store with a delivery outcome recorded for the message with
    /// the id, if there is such a message.
    pub open spec fn recorded(self, queue: Seq<char>, id: Seq<char>, status: PushStatusView) -> StoreView {
        if self.locate(queue, id) is Ok {
            self.with_slot(queue, id, self.queue(queue).slot(id).recorded(status))
        } else {
            self
        }
    }
}

/// Recording a delivery outcome keeps a stored message well-formed: there
/// is still one outcome for each address.
pub proof fn lemma_recorded(slot: SlotView, status: PushStatusView)
    requires
        slot.wf(),
    ensures
        slot.recorded(status).wf(),
        slot.recorded(status).has_delivery(status.url),
        slot.recorded(status).deliveries[slot.recorded(status).delivery_position(status.url)]
            == status,
        slot.recorded(status).msg == slot.msg,
        slot.recorded(status).score == slot.score,
{
    let after = slot.recorded(status);
    let p = if slot.has_delivery(status.url) {
        slot.delivery_position(status.url)
    } else {
        slot.deliveries.len() as int
    };
    if slot.has_delivery(status.url) {
        assert(slot.delivery_at(status.url, p));
    }
    assert forall|i: int, j: int| 0 <= i < j < after.deliveries.len() implies after.deliveries[i].url
        != after.deliveries[j].url by {
        if slot.has_delivery(status.url) {
            assert(slot.deliveries[i].url != slot.deliveries[j].url);
        } else {
            if j < slot.deliveries.len() {
                assert(slot.deliveries[i].url != slot.deliveries[j].url);
            } else {
                assert(!slot.delivery_at(status.url, i));
            }
        }
    }
    assert(after.delivery_at(status.url, p));
    let q = after.delivery_position(status.url);
    assert(after.delivery_at(status.url, q));
    if q < p {
        assert(after.deliveries[q].url != after.deliveries[p].url);
    } else if p < q {
        assert(after.deliveries[p].url != after.deliveries[q].url);
    }
}

impl Slot {
    fn record(&mut self, status: PushStatus)
        requires
            old(self)@.wf(),
        ensures
            final(self)@ == old(self)@.recorded(status@),
    {
        let ghost before = self@;
        let mut i: usize = 0;
        while i < self.deliveries.len()
            invariant
                before == old(self)@,
                self@ == before,
                before.wf(),
                i <= self.deliveries.len(),
                self.deliveries.len() == before.deliveries.len(),
                forall|k: int| 0 <= k < i ==> !before.delivery_at(status@.url, k),
            decreases self.deliveries.len() - i,
        {
            assert(before.deliveries[i as int] == self.deliveries[i as int]@);
            if self.deliveries[i].url == status.url {
                proof {
                    assert(before.delivery_at(status@.url, i as int));
                    let p = before.delivery_position(status@.url);
                    assert(before.delivery_at(status@.url, p));
                    if p < i {
                        assert(before.deliveries[p].url != before.deliveries[i as int].url);
                    } else if i < p {
                        assert(before.deliveries[i as int].url != before.deliveries[p].url);
                    }
                }
                self.deliveries[i] = status;
                assert(self@.deliveries =~= before.deliveries.update(i as int, status@));
                return ;
            }
            i = i + 1;
        }
        self.deliveries.push(status);
        assert(self@.deliveries =~= before.deliveries.push(status@));
    }

    fn outcomes(&self) -> (out: Vec<PushStatus>)
        ensures
            out.deep_view() == self@.deliveries,
    {
        let mut out: Vec<PushStatus> = Vec::new();
        let mut i: usize = 0;
        while i < self.deliveries.len()
            invariant
                i <= self.deliveries.len(),
                out.len() == i,
                forall|k: int| 0 <= k < i ==> (#[trigger] out[k])@ == self.deliveries[k]@,
            decreases self.deliveries.len() - i,
        {
            out.push(self.deliveries[i].clone());
            i = i + 1;
        }
        assert(out.deep_view() =~= self@.deliveries);
        out
    }
}

impl QueueRecord {
    fn record_at(&mut self, i: usize, status: PushStatus)
        requires
            i < old(self)@.slots.len(),
            old(self)@.slots[i as int].wf(),
        ensures
            final(self)@ == (QueueRecordView {
                slots: old(self)@.slots.update(
                    i as int,
                    old(self)@.slots[i as int].recorded(status@),
                ),
                ..old(self)@
            }),
    {
        self.slots[i].record(status);
        assert(self@.slots =~= old(self)@.slots.update(
            i as int,
            old(self)@.slots[i as int].recorded(status@),
        ));
    }
}

/// Records the outcome of a delivery for the message with the id: it
/// takes the place of the earlier outcome for the same subscriber address,
/// so that the latest outcome for each address is kept.
pub fn record_push_status(
    store: &mut Store,
    queue_name: &String,
    message_id: &String,
    status: PushStatus,
) -> (recorded: Result<bool, QueueError>)
    requires
        old(store)@.wf(),
    ensures
        final(store)@.wf(),
        final(store)@ == old(store)@.recorded(queue_name@, message_id@, status@),
        match old(store)@.locate(queue_name@, message_id@) {
            Ok(_) => recorded == Ok::<bool, QueueError>(true),
            Err(e) => recorded == Err::<bool, QueueError>(e),
        },
{
    let qi = match store.find(queue_name) {
        Some(qi) => qi,
        None => { return Err(QueueError::QueueNotFound); },
    };
    let mi = match store.queues[qi].find(message_id) {
        Some(mi) => mi,
        None => { return Err(QueueError::MessageNotFound); },
    };
    proof {
        let before = old(store)@;
        let queue = before.queue(queue_name@);
        assert(queue.slot(message_id@).wf());
        let slot = queue.slot(message_id@).recorded(status@);
        lemma_recorded(queue.slot(message_id@), status@);
        lemma_with_slot(queue, message_id@, slot);
        lemma_with_queue(before, queue_name@, queue.with_slot(message_id@, slot));
    }
    store.queues[qi].record_at(mi, status);
    assert(store@.queues =~= old(store)@.recorded(queue_name@, message_id@, status@).queues);
    Ok(true)
}

/// The latest delivery outcome for each subscriber address to which the
/// message with the id was posted.
pub fn get_push_statuses(store: &Store, queue_name: &String, message_id: &String) -> (found: Result<
    Vec<PushStatus>,
    QueueError,
>)
    requires
        store@.wf(),
    ensures
        match found {
            Ok(statuses) => store@.locate(queue_name@, message_id@) is Ok && statuses.deep_view()
                == store@.locate(queue_name@, message_id@)->Ok_0.deliveries,
            Err(e) => store@.locate(queue_name@, message_id@) == Err::<SlotView, QueueError>(e),
        },
{
    let qi = match store.find(queue_name) {
        Some(qi) => qi,
        None => { return Err(QueueError::QueueNotFound); },
    };
    let mi = match store.queues[qi].find(message_id) {
        Some(mi) => mi,
        None => { return Err(QueueError::MessageNotFound); },
    };
    Ok(store.queues[qi].slots[mi].outcomes())
}

} // verus!
