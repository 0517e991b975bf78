//! The state of the broker as plain values: what is written to the
//! backing store and read from it again. What was read is checked before
//! it becomes the state of the broker.

use vstd::prelude::*;
use crate::message::{Message, MessageState};
use crate::mq::{QueueRecord, QueueRecordView, Slot, SlotView, Store, StoreView};
use crate::queue_info::{PushStatus, QueueInfo, QueueState, QueueType};

verus! {

/// How often a change is tried against the backing store before it is
/// given up.
pub const STORE_ATTEMPTS: usize = 5;

/// Whether a change that another writer has overtaken is tried again,
/// after so many tries: the number of tries is bounded, so that writers
/// that keep overtaking one another cannot hold a request for ever.
pub fn tries_again(made: usize) -> (again: bool)
    ensures
        again == (made < STORE_ATTEMPTS),
{
    made < STORE_ATTEMPTS
}

/// A message of a queue with what the store keeps beside it: its sequence
/// number, the side on which it stands, and the latest delivery outcome for
/// each subscriber address.
#[derive(Debug)]
pub struct StoredMessage {
    pub score: usize,
    pub reserved: bool,
    pub msg: Message,
    pub deliveries: Vec<PushStatus>,
}

impl DeepView for StoredMessage {
    type V = SlotView;

    open spec fn deep_view(&self) -> SlotView {
        SlotView {
            score: self.score,
            reserved: self.reserved,
            msg: self.msg@,
            deliveries: self.deliveries.deep_view(),
        }
    }
}

impl View for StoredMessage {
    type V = SlotView;

    open spec fn view(&self) -> SlotView {
        self.deep_view()
    }
}

/// A queue with all that the store keeps of it.
#[derive(Debug)]
pub struct QueueSnapshot {
    pub info: QueueInfo,
    pub counter: usize,
    pub messages: Vec<StoredMessage>,
}

impl DeepView for QueueSnapshot {
    type V = QueueRecordView;

    open spec fn deep_view(&self) -> QueueRecordView {
        QueueRecordView {
            info: self.info@,
            counter: self.counter,
            slots: self.messages.deep_view(),
        }
    }
}

impl View for QueueSnapshot {
    type V = QueueRecordView;

    open spec fn view(&self) -> QueueRecordView {
        self.deep_view()
    }
}

/// Copies a list of delivery outcomes.
fn clone_outcomes(outcomes: &Vec<PushStatus>) -> (copy: Vec<PushStatus>)
    ensures
        copy.deep_view() == outcomes.deep_view(),
{
    let mut copy: Vec<PushStatus> = Vec::new();
    let mut i: usize = 0;
    while i < outcomes.len()
        invariant
            i <= outcomes.len(),
            copy.len() == i,
            forall|k: int| 0 <= k < i ==> (#[trigger] copy[k]) == outcomes[k],
        decreases outcomes.len() - i,
    {
        copy.push(outcomes[i].clone());
        i = i + 1;
    }
    assert(copy.deep_view() =~= outcomes.deep_view());
    copy
}

impl Slot {
    fn snapshot(&self) -> (out: StoredMessage)
        ensures
            out@ == self@,
    {
        StoredMessage {
            score: self.score,
            reserved: self.reserved,
            msg: self.msg.clone(),
            deliveries: clone_outcomes(&self.deliveries),
        }
    }
}

impl QueueRecord {
    fn snapshot(&self) -> (out: QueueSnapshot)
        ensures
            out@ == self@,
    {
        let mut messages: Vec<StoredMessage> = Vec::new();
        let mut i: usize = 0;
        while i < self.slots.len()
            invariant
                i <= self.slots.len(),
                messages.len() == i,
                forall|k: int| 0 <= k < i ==> (#[trigger] messages[k])@ == self.slots[k]@,
            decreases self.slots.len() - i,
        {
            messages.push(self.slots[i].snapshot());
            i = i + 1;
        }
        assert(messages.deep_view() =~= self@.slots);
        QueueSnapshot { info: self.info.clone(), counter: self.counter, messages }
    }
}

impl Store {
    /// The queues of the store with all that it keeps of them, in the
    /// order in which they were created.
    pub fn snapshot(&self) -> (out: Vec<QueueSnapshot>)
        ensures
            out.deep_view() == self@.queues,
    {
        let mut out: Vec<QueueSnapshot> = Vec::new();
        let mut i: usize = 0;
        while i < self.queues.len()
            invariant
                i <= self.queues.len(),
                out.len() == i,
                forall|k: int| 0 <= k < i ==> (#[trigger] out[k])@ == self.queues[k]@,
            decreases self.queues.len() - i,
        {
            out.push(self.queues[i].snapshot());
            i = i + 1;
        }
        assert(out.deep_view() =~= self@.queues);
        out
    }
}

/// Whether no two delivery outcomes are for the same address.
fn distinct_addresses(deliveries: &Vec<PushStatus>) -> (distinct: bool)
    ensures
        distinct == (forall|i: int, j: int|
            0 <= i < j < deliveries.len() ==> deliveries.deep_view()[i].url
                != deliveries.deep_view()[j].url),
{
    let ghost all = deliveries.deep_view();
    let mut j: usize = 0;
    while j < deliveries.len()
        invariant
            all == deliveries.deep_view(),
            j <= deliveries.len(),
            forall|a: int, b: int| 0 <= a < b < j ==> all[a].url != all[b].url,
        decreases deliveries.len() - j,
    {
        let mut i: usize = 0;
        while i < j
            invariant
                all == deliveries.deep_view(),
                j < deliveries.len(),
                i <= j,
                forall|a: int| 0 <= a < i ==> all[a].url != all[j as int].url,
            decreases j - i,
        {
            assert(all[i as int] == deliveries[i as int]@);
            assert(all[j as int] == deliveries[j as int]@);
            if deliveries[i].url == deliveries[j].url {
                return false;
            }
            i = i + 1;
        }
        j = j + 1;
    }
    true
}

impl StoredMessage {
    /// Whether the stored message is well-formed.
    pub fn is_wf(&self) -> (wf: bool)
        ensures
            wf == self@.wf(),
    {
        let sided = match self.msg.state {
            Some(MessageState::Reserved) => self.reserved,
            Some(MessageState::Unreserved) => !self.reserved,
            None => false,
        };
        self.msg.id.is_some() && sided && (self.reserved == self.msg.reservation_id.is_some())
            && distinct_addresses(&self.deliveries)
    }
}

/// Whether a configuration meets the rule on types and subscribers.
fn is_valid(info: &QueueInfo) -> (valid: bool)
    ensures
        valid == (info@.state() == QueueState::Valid),
{
    match info.queue_type {
        None => false,
        Some(QueueType::Pull) => info.push.is_none(),
        Some(_) => match &info.push {
            Some(push) => match &push.subscribers {
                Some(subscribers) => subscribers.len() >= 1,
                None => false,
            },
            None => false,
        },
    }
}

impl QueueSnapshot {
    /// Whether the queue is well-formed: it has a name and a valid
    /// configuration, and its messages are well-formed, in the strict
    /// order of their sequence numbers, all below the counter, each with
    /// an id of its own.
    pub fn is_wf(&self) -> (wf: bool)
        ensures
            wf == self@.wf(),
    {
        if self.info.name.is_none() || !is_valid(&self.info) {
            return false;
        }
        let ghost all = self@.slots;
        let mut j: usize = 0;
        while j < self.messages.len()
            invariant
                all == self@.slots,
                all.len() == self.messages.len(),
                j <= self.messages.len(),
                forall|a: int| 0 <= a < j ==> (#[trigger] all[a]).wf(),
                forall|a: int| 0 <= a < j ==> (#[trigger] all[a]).score < self.counter,
                forall|a: int, b: int|
                    0 <= a < b < j ==> (#[trigger] all[a]).score < (#[trigger] all[b]).score,
                forall|a: int, b: int|
                    0 <= a < b < j ==> (#[trigger] all[a]).msg.id != (#[trigger] all[b]).msg.id,
            decreases self.messages.len() - j,
        {
            assert(all[j as int] == self.messages[j as int]@);
            if !self.messages[j].is_wf() || self.messages[j].score >= self.counter {
                return false;
            }
            if j > 0 {
                assert(all[j - 1] == self.messages[j - 1]@);
                if self.messages[j - 1].score >= self.messages[j].score {
                    return false;
                }
            }
            let mut i: usize = 0;
            while i < j
                invariant
                    all == self@.slots,
                    all.len() == self.messages.len(),
                    j < self.messages.len(),
                    i <= j,
                    all[j as int].wf(),
                    forall|a: int| 0 <= a < j ==> (#[trigger] all[a]).wf(),
                    forall|a: int| 0 <= a < i ==> (#[trigger] all[a]).msg.id != all[j as int].msg.id,
                decreases j - i,
            {
                assert(all[i as int] == self.messages[i as int]@);
                assert(all[j as int] == self.messages[j as int]@);
                assert(all[i as int].wf());
                let same = match &self.messages[i].msg.id {
                    Some(one) => match &self.messages[j].msg.id {
                        Some(other) => *one == *other,
                        None => false,
                    },
                    None => false,
                };
                if same {
                    return false;
                }
                i = i + 1;
            }
            proof {
                assert forall|a: int, b: int| 0 <= a < b < j + 1 implies (#[trigger] all[a]).score
                    < (#[trigger] all[b]).score by {
                    if b == j && a < j - 1 {
                        assert(all[a].score < all[j - 1].score);
                    }
                }
            }
            j = j + 1;
        }
        true
    }
}

/// Whether the queues are well-formed and no two have the same name.
pub fn is_wf(queues: &Vec<QueueSnapshot>) -> (wf: bool)
    ensures
        wf == (StoreView { queues: queues.deep_view() }).wf(),
{
    let ghost all = queues.deep_view();
    let mut j: usize = 0;
    while j < queues.len()
        invariant
            all == queues.deep_view(),
            all.len() == queues.len(),
            j <= queues.len(),
            forall|a: int| 0 <= a < j ==> (#[trigger] all[a]).wf(),
            forall|a: int, b: int|
                0 <= a < b < j ==> (#[trigger] all[a]).info.name != (#[trigger] all[b]).info.name,
        decreases queues.len() - j,
    {
        assert(all[j as int] == queues[j as int]@);
        if !queues[j].is_wf() {
            return false;
        }
        let mut i: usize = 0;
        while i < j
            invariant
                all == queues.deep_view(),
                all.len() == queues.len(),
                j < queues.len(),
                i <= j,
                all[j as int].wf(),
                forall|a: int| 0 <= a < j ==> (#[trigger] all[a]).wf(),
                forall|a: int| 0 <= a < i ==> (#[trigger] all[a]).info.name != all[j as int].info.name,
            decreases j - i,
        {
            assert(all[i as int] == queues[i as int]@);
            assert(all[j as int] == queues[j as int]@);
            assert(all[i as int].wf());
            let same = match &queues[i].info.name {
                Some(one) => match &queues[j].info.name {
                    Some(other) => *one == *other,
                    None => false,
                },
                None => false,
            };
            if same {
                return false;
            }
            i = i + 1;
        }
        j = j + 1;
    }
    true
}

impl Store {
    /// The store that holds the queues, where they are well-formed and no
    /// two have the same name; otherwise nothing.
    pub fn restore(queues: Vec<QueueSnapshot>) -> (store: Option<Store>)
        ensures
            match store {
                Some(store) => store@.queues == queues.deep_view() && store@.wf(),
                None => !(StoreView { queues: queues.deep_view() }).wf(),
            },
    {
        if !is_wf(&queues) {
            return None;
        }
        let ghost all = queues.deep_view();
        let mut turned = turned(queues);
        let mut records: Vec<QueueRecord> = Vec::new();
        while turned.len() > 0
            invariant
                records.len() + turned.len() == all.len(),
                forall|k: int|
                    0 <= k < turned.len() ==> (#[trigger] turned[k])@ == all[all.len() - 1 - k],
                forall|k: int| 0 <= k < records.len() ==> (#[trigger] records[k])@ == all[k],
            decreases turned.len(),
        {
            match turned.pop() {
                Some(queue) => { records.push(restore_queue(queue)); },
                None => {},
            }
        }
        let store = Store { queues: records };
        assert(store@.queues =~= all);
        Some(store)
    }
}

fn restore_message(message: StoredMessage) -> (slot: Slot)
    ensures
        slot@ == message@,
{
    Slot {
        score: message.score,
        reserved: message.reserved,
        msg: message.msg,
        deliveries: message.deliveries,
    }
}

fn restore_queue(queue: QueueSnapshot) -> (record: QueueRecord)
    ensures
        record@ == queue@,
{
    let ghost all = queue.messages.deep_view();
    let mut turned = turned(queue.messages);
    let mut slots: Vec<Slot> = Vec::new();
    while turned.len() > 0
        invariant
            slots.len() + turned.len() == all.len(),
            forall|k: int|
                0 <= k < turned.len() ==> (#[trigger] turned[k])@ == all[all.len() - 1 - k],
            forall|k: int| 0 <= k < slots.len() ==> (#[trigger] slots[k])@ == all[k],
        decreases turned.len(),
    {
        match turned.pop() {
            Some(message) => { slots.push(restore_message(message)); },
            None => {},
        }
    }
    let record = QueueRecord { info: queue.info, counter: queue.counter, slots };
    assert(record@.slots =~= all);
    record
}

/// Two lists of stored messages as one, in the order of their sequence
/// numbers where each of the two is: of the two messages in front, the one
/// with the lower number comes first, and the unreserved one where the
/// numbers are the same.
pub open spec fn merged(unreserved: Seq<SlotView>, reserved: Seq<SlotView>) -> Seq<SlotView>
    decreases unreserved.len() + reserved.len(),
{
    if unreserved.len() == 0 {
        reserved
    } else if reserved.len() == 0 {
        unreserved
    } else if unreserved.first().score <= reserved.first().score {
        seq![unreserved.first()] + merged(unreserved.drop_first(), reserved)
    } else {
        seq![reserved.first()] + merged(unreserved, reserved.drop_first())
    }
}

/// Brings the two sides of a queue together: the unreserved and the
/// reserved messages, each in the order of their sequence numbers, become
/// one list in that order.
pub fn merge_sides(unreserved: Vec<StoredMessage>, reserved: Vec<StoredMessage>) -> (out: Vec<
    StoredMessage,
>)
    ensures
        out.deep_view() == merged(unreserved.deep_view(), reserved.deep_view()),
{
    let ghost a = unreserved.deep_view();
    let ghost b = reserved.deep_view();
    let mut left = turned(unreserved);
    let mut right = turned(reserved);
    let mut out: Vec<StoredMessage> = Vec::new();
    assert(a.skip(0) =~= a);
    assert(b.skip(0) =~= b);
    assert(out.deep_view() + merged(a, b) =~= merged(a, b));
    while left.len() > 0 || right.len() > 0
        invariant
            left.len() <= a.len(),
            right.len() <= b.len(),
            forall|k: int| 0 <= k < left.len() ==> (#[trigger] left[k])@ == a[a.len() - 1 - k],
            forall|k: int| 0 <= k < right.len() ==> (#[trigger] right[k])@ == b[b.len() - 1 - k],
            out.deep_view() + merged(a.skip(a.len() - left.len()), b.skip(b.len() - right.len()))
                == merged(a, b),
        decreases left.len() + right.len(),
    {
        let ghost i = a.len() - left.len();
        let ghost j = b.len() - right.len();
        let ghost before = out.deep_view();
        let from_left = if left.len() == 0 {
            false
        } else if right.len() == 0 {
            true
        } else {
            left[left.len() - 1].score <= right[right.len() - 1].score
        };
        proof {
            if left.len() > 0 {
                assert(a.skip(i).first() == left[left.len() - 1]@);
                assert(a.skip(i).drop_first() =~= a.skip(i + 1));
            }
            if right.len() > 0 {
                assert(b.skip(j).first() == right[right.len() - 1]@);
                assert(b.skip(j).drop_first() =~= b.skip(j + 1));
            }
        }
        let next = if from_left {
            left.pop()
        } else {
            right.pop()
        };
        match next {
            Some(message) => {
                out.push(message);
                proof {
                    let rest = if from_left {
                        merged(a.skip(i + 1), b.skip(j))
                    } else {
                        merged(a.skip(i), b.skip(j + 1))
                    };
                    if from_left && right.len() == 0 {
                        assert(merged(a.skip(i), b.skip(j)) =~= seq![message@] + rest);
                    }
                    if !from_left && left.len() == 0 {
                        assert(merged(a.skip(i), b.skip(j)) =~= seq![message@] + rest);
                    }
                    assert(out.deep_view() =~= before.push(message@));
                    assert(before.push(message@) + rest =~= before + (seq![message@] + rest));
                }
            },
            None => {},
        }
    }
    proof {
        assert(a.skip(a.len() as int).len() == 0);
        assert(out.deep_view() + merged(a.skip(a.len() as int), b.skip(b.len() as int))
            =~= out.deep_view());
    }
    out
}

/// The list in the opposite order.
fn turned<T>(list: Vec<T>) -> (out: Vec<T>)
    ensures
        out@.len() == list@.len(),
        forall|k: int| 0 <= k < list@.len() ==> (#[trigger] out@[k]) == list@[list@.len() - 1 - k],
{
    let mut rest = list;
    let mut out: Vec<T> = Vec::new();
    while rest.len() > 0
        invariant
            out@.len() + rest@.len() == list@.len(),
            forall|k: int| 0 <= k < rest@.len() ==> (#[trigger] rest@[k]) == list@[k],
            forall|k: int| 0 <= k < out@.len() ==> (#[trigger] out@[k]) == list@[list@.len() - 1 - k],
        decreases rest.len(),
    {
        match rest.pop() {
            Some(item) => { out.push(item); },
            None => {},
        }
    }
    out
}

} // verus!
