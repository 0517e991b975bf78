//! The state of the broker: every queue with its configuration, its
//! sequence counter and its messages, each message either reserved or
//! unreserved.
//!
//! A queue keeps its messages in one list, ordered by the sequence numbers
//! that they got when they were enqueued. Each entry says on which side the
//! message stands, so that a message cannot be on both sides or on neither,
//! and the order of the messages never depends on how often they were
//! reserved and released. A message stays on the reserved side until it
//! is released or deleted: no reservation ends because time has passed.

use vstd::prelude::*;
use crate::message::{Message, MessageState, MessageView};
use crate::queue_info::{
    PushStatus, PushStatusView, QueueInfo, QueueInfoView, QueueState, QueueType,
};

pub mod laws;
pub mod message;
pub mod queue;
pub mod reserve;
pub mod snapshot;
pub mod status;

verus! {

/// The word that a message carries for the side on which it stands.
pub open spec fn side(reserved: bool) -> MessageState {
    if reserved {
        MessageState::Reserved
    } else {
        MessageState::Unreserved
    }
}

/// The mathematical value of a stored message: its sequence number, the
/// side on which it stands, the message, and the latest delivery outcome
/// for each subscriber address.
pub struct SlotView {
    pub score: usize,
    pub reserved: bool,
    pub msg: MessageView,
    pub deliveries: Seq<PushStatusView>,
}

impl SlotView {
    /// A stored message has an id, carries the word for its side, and holds
    /// a reservation token exactly while it is reserved. No two of its
    /// delivery outcomes are for the same address.
    pub open spec fn wf(self) -> bool {
        &&& self.msg.id is Some
        &&& self.msg.state == Some(side(self.reserved))
        &&& self.reserved <==> self.msg.reservation_id is Some
        &&& forall|i: int, j: int|
            0 <= i < j < self.deliveries.len() ==> self.deliveries[i].url != self.deliveries[j].url
    }

    /// Whether the message is reserved under the token.
    pub open spec fn owned_by(self, token: Seq<char>) -> bool {
        self.reserved && self.msg.reservation_id == Some(token)
    }
}

/// A message as a queue holds it.
pub struct Slot {
    score: usize,
    reserved: bool,
    msg: Message,
    deliveries: Vec<PushStatus>,
}

impl DeepView for Slot {
    type V = SlotView;

    closed spec fn deep_view(&self) -> SlotView {
        SlotView {
            score: self.score,
            reserved: self.reserved,
            msg: self.msg@,
            deliveries: self.deliveries.deep_view(),
        }
    }
}

impl View for Slot {
    type V = SlotView;

    closed spec fn view(&self) -> SlotView {
        self.deep_view()
    }
}

/// The mathematical value of a queue: its configuration, the sequence
/// number that the next message gets, and its messages in the order of
/// their sequence numbers.
pub struct QueueRecordView {
    pub info: QueueInfoView,
    pub counter: usize,
    pub slots: Seq<SlotView>,
}

impl QueueRecordView {
    /// The name of the queue.
    pub open spec fn name(self) -> Seq<char> {
        self.info.name->0
    }

    /// A queue has a name and a configuration that meets the rule on types
    /// and subscribers. Its messages are well-formed, stand in the strict
    /// order of their sequence numbers, all below the counter, and no two
    /// have the same id.
    pub open spec fn wf(self) -> bool {
        &&& self.info.name is Some
        &&& self.info.state() == QueueState::Valid
        &&& forall|i: int| 0 <= i < self.slots.len() ==> (#[trigger] self.slots[i]).wf()
        &&& forall|i: int| 0 <= i < self.slots.len() ==> (#[trigger] self.slots[i]).score < self.counter
        &&& forall|i: int, j: int|
            0 <= i < j < self.slots.len() ==> (#[trigger] self.slots[i]).score < (
            #[trigger] self.slots[j]).score
        &&& forall|i: int, j: int|
            0 <= i < j < self.slots.len() ==> (#[trigger] self.slots[i]).msg.id != (
            #[trigger] self.slots[j]).msg.id
    }

    /// Whether the queue hands its messages to subscribers.
    pub open spec fn is_push(self) -> bool {
        self.info.queue_type != Some(QueueType::Pull)
    }

    /// Whether the message at a place has the id.
    pub open spec fn is_at(self, id: Seq<char>, i: int) -> bool {
        0 <= i < self.slots.len() && self.slots[i].msg.id == Some(id)
    }

    /// Whether the queue holds a message with the id.
    pub open spec fn holds(self, id: Seq<char>) -> bool {
        exists|i: int| self.is_at(id, i)
    }

    /// The place of the message with the id.
    pub open spec fn position(self, id: Seq<char>) -> int
        recommends
            self.holds(id),
    {
        choose|i: int| self.is_at(id, i)
    }

    /// The ids of the messages that are not reserved.
    pub open spec fn unreserved_ids(self) -> Set<Seq<char>> {
        Set::new(|id: Seq<char>| exists|i: int| self.is_at(id, i) && !self.slots[i].reserved)
    }

    /// The ids of the messages that are reserved.
    pub open spec fn reserved_ids(self) -> Set<Seq<char>> {
        Set::new(|id: Seq<char>| exists|i: int| self.is_at(id, i) && self.slots[i].reserved)
    }
}

/// A queue as the store holds it.
pub struct QueueRecord {
    info: QueueInfo,
    counter: usize,
    slots: Vec<Slot>,
}

impl DeepView for QueueRecord {
    type V = QueueRecordView;

    closed spec fn deep_view(&self) -> QueueRecordView {
        QueueRecordView {
            info: self.info@,
            counter: self.counter,
            slots: self.slots.deep_view(),
        }
    }
}

impl View for QueueRecord {
    type V = QueueRecordView;

    closed spec fn view(&self) -> QueueRecordView {
        self.deep_view()
    }
}

/// The mathematical value of the store: its queues in the order in which
/// they were created.
pub struct StoreView {
    pub queues: Seq<QueueRecordView>,
}

impl StoreView {
    /// Every queue is well-formed, and no two have the same name.
    pub open spec fn wf(self) -> bool {
        &&& forall|i: int| 0 <= i < self.queues.len() ==> (#[trigger] self.queues[i]).wf()
        &&& forall|i: int, j: int|
            0 <= i < j < self.queues.len() ==> (#[trigger] self.queues[i]).info.name != (
            #[trigger] self.queues[j]).info.name
    }

    /// Whether the queue at a place has the name.
    pub open spec fn is_at(self, name: Seq<char>, i: int) -> bool {
        0 <= i < self.queues.len() && self.queues[i].info.name == Some(name)
    }

    /// Whether the store holds a queue with the name.
    pub open spec fn holds(self, name: Seq<char>) -> bool {
        exists|i: int| self.is_at(name, i)
    }

    /// The place of the queue with the name.
    pub open spec fn position(self, name: Seq<char>) -> int
        recommends
            self.holds(name),
    {
        choose|i: int| self.is_at(name, i)
    }

    /// The queue with the name.
    pub open spec fn queue(self, name: Seq<char>) -> QueueRecordView
        recommends
            self.holds(name),
    {
        self.queues[self.position(name)]
    }

    /// The store with one queue replaced.
    pub open spec fn with_queue(self, name: Seq<char>, queue: QueueRecordView) -> StoreView
        recommends
            self.holds(name),
    {
        StoreView { queues: self.queues.update(self.position(name), queue) }
    }
}

/// The place of a queue is the only one with its name.
pub proof fn lemma_queue_position(store: StoreView, name: Seq<char>, i: int)
    requires
        store.wf(),
        store.is_at(name, i),
    ensures
        store.holds(name),
        store.position(name) == i,
{
    let p = store.position(name);
    assert(store.is_at(name, p));
    if p < i {
        assert(store.queues[p].info.name != store.queues[i].info.name);
    } else if i < p {
        assert(store.queues[i].info.name != store.queues[p].info.name);
    }
}

/// The place of a message is the only one with its id.
pub proof fn lemma_message_position(queue: QueueRecordView, id: Seq<char>, i: int)
    requires
        queue.wf(),
        queue.is_at(id, i),
    ensures
        queue.holds(id),
        queue.position(id) == i,
{
    let p = queue.position(id);
    assert(queue.is_at(id, p));
    if p < i {
        assert(queue.slots[p].msg.id != queue.slots[i].msg.id);
    } else if i < p {
        assert(queue.slots[i].msg.id != queue.slots[p].msg.id);
    }
}

/// The broker's state, held in memory.
pub struct Store {
    queues: Vec<QueueRecord>,
}

impl DeepView for Store {
    type V = StoreView;

    closed spec fn deep_view(&self) -> StoreView {
        StoreView { queues: self.queues.deep_view() }
    }
}

impl View for Store {
    type V = StoreView;

    closed spec fn view(&self) -> StoreView {
        self.deep_view()
    }
}

impl QueueRecord {
    fn is_push(&self) -> (push: bool)
        ensures
            push == self@.is_push(),
    {
        match self.info.queue_type {
            Some(QueueType::Pull) => false,
            _ => true,
        }
    }

    /// The place of the message with the id, if the queue holds it.
    fn find(&self, id: &String) -> (found: Option<usize>)
        requires
            self@.wf(),
        ensures
            match found {
                Some(i) => self@.holds(id@) && self@.position(id@) == i && i < self.slots.len(),
                None => !self@.holds(id@),
            },
    {
        let mut i: usize = 0;
        while i < self.slots.len()
            invariant
                self@.wf(),
                i <= self.slots.len(),
                forall|k: int| 0 <= k < i ==> !self@.is_at(id@, k),
            decreases self.slots.len() - i,
        {
            let hit = match &self.slots[i].msg.id {
                Some(have) => *have == *id,
                None => false,
            };
            if hit {
                proof {
                    assert(self@.is_at(id@, i as int));
                    lemma_message_position(self@, id@, i as int);
                }
                return Some(i);
            }
            i = i + 1;
        }
        None
    }
}

impl Store {
    /// A store without queues.
    pub fn new() -> (store: Store)
        ensures
            store@.queues.len() == 0,
            store@.wf(),
    {
        Store { queues: Vec::new() }
    }

    /// The place of the queue with the name, if the store holds it.
    fn find(&self, name: &String) -> (found: Option<usize>)
        requires
            self@.wf(),
        ensures
            match found {
                Some(i) => self@.holds(name@) && self@.position(name@) == i && i
                    < self.queues.len(),
                None => !self@.holds(name@),
            },
    {
        let mut i: usize = 0;
        while i < self.queues.len()
            invariant
                self@.wf(),
                i <= self.queues.len(),
                forall|k: int| 0 <= k < i ==> !self@.is_at(name@, k),
            decreases self.queues.len() - i,
        {
            let hit = match &self.queues[i].info.name {
                Some(have) => *have == *name,
                None => false,
            };
            if hit {
                proof {
                    assert(self@.is_at(name@, i as int));
                    lemma_queue_position(self@, name@, i as int);
                }
                return Some(i);
            }
            i = i + 1;
        }
        None
    }
}

} // verus!
