//! The reservation engine, second part: peeking at the oldest unreserved
//! messages of a queue, and reserving them.
//!
//! A reservation does not expire by itself. The configuration of a queue
//! holds the time that a reservation is meant to last, but nothing in the
//! engine watches that time: a message that was reserved stays reserved
//! until the holder of its token releases it or it is deleted. A consumer
//! that keeps a message has to touch or release it in time; a sweeper that
//! returns overdue messages to the unreserved side would be an addition to
//! the engine, not a part of it.

use vstd::prelude::*;
use crate::error::QueueError;
use crate::ids::{distinct, fresh_distinct, is_object_id};
use crate::message::{Message, MessageState, MessageView, ReserveMessageParams};
use crate::mq::message::{delete_each, lemma_with_queue};
use crate::mq::{QueueRecord, QueueRecordView, Slot, SlotView, Store, StoreView};

verus! {

/// The number of reservations of a message after one more.
pub open spec fn bumped(count: Option<u32>) -> u32 {
    match count {
        Some(c) => if c < u32::MAX {
            (c + 1) as u32
        } else {
            c
        },
        None => 1,
    }
}

impl SlotView {
    /// The message on the reserved side, counted once more. It gets the
    /// token unless it holds one already: the first token stays.
    pub open spec fn leased(self, token: Seq<char>) -> SlotView {
        SlotView {
            reserved: true,
            msg: MessageView {
                reservation_id: if self.msg.reservation_id is Some {
                    self.msg.reservation_id
                } else {
                    Some(token)
                },
                state: Some(MessageState::Reserved),
                reserved_count: Some(bumped(self.msg.reserved_count)),
                ..self.msg
            },
            ..self
        }
    }
}

/// How many of the first `j` messages of a queue are unreserved.
pub open spec fn unreserved_before(slots: Seq<SlotView>, j: int) -> nat
    decreases j,
{
    if j <= 0 {
        0
    } else {
        unreserved_before(slots, j - 1) + if slots[j - 1].reserved {
            0nat
        } else {
            1nat
        }
    }
}

/// How many messages a request for `n` may get: as many as it asks for, or
/// every one where it asks for a negative number.
pub open spec fn limit_of(n: i32, len: nat) -> nat {
    if n < 0 {
        len
    } else {
        n as nat
    }
}

/// Whether the message at place `j` is one of the `limit` oldest
/// unreserved messages.
pub open spec fn is_picked(slots: Seq<SlotView>, limit: nat, j: int) -> bool {
    0 <= j < slots.len() && !slots[j].reserved && unreserved_before(slots, j) < limit
}

/// The `limit` oldest unreserved messages among the first `j` messages of
/// a queue, oldest first.
pub open spec fn heads(slots: Seq<SlotView>, limit: nat, j: int) -> Seq<MessageView>
    decreases j,
{
    if j <= 0 {
        Seq::empty()
    } else if is_picked(slots, limit, j - 1) {
        heads(slots, limit, j - 1).push(slots[j - 1].msg)
    } else {
        heads(slots, limit, j - 1)
    }
}

/// The message at place `j` as it is handed out when the oldest unreserved
/// messages are reserved under the tokens: the first of them under the
/// first token, the second under the second, and so on.
pub open spec fn lease_at(slots: Seq<SlotView>, tokens: Seq<Seq<char>>, j: int) -> SlotView {
    slots[j].leased(tokens[unreserved_before(slots, j) as int])
}

/// The messages that are handed out among the first `j` messages of a
/// queue when its oldest unreserved messages are reserved under the
/// tokens, oldest first.
pub open spec fn leases(slots: Seq<SlotView>, tokens: Seq<Seq<char>>, j: int) -> Seq<MessageView>
    decreases j,
{
    if j <= 0 {
        Seq::empty()
    } else if is_picked(slots, tokens.len(), j - 1) {
        leases(slots, tokens, j - 1).push(lease_at(slots, tokens, j - 1).msg)
    } else {
        leases(slots, tokens, j - 1)
    }
}

/// The ids of a list of stored messages.
pub open spec fn ids_of(messages: Seq<MessageView>) -> Seq<Seq<char>> {
    Seq::new(messages.len(), |i: int| messages[i].id->0)
}

/// The count of unreserved messages grows with the place.
pub proof fn lemma_unreserved_before_grows(slots: Seq<SlotView>, i: int, j: int)
    requires
        i <= j,
    ensures
        unreserved_before(slots, i) <= unreserved_before(slots, j),
    decreases j - i,
{
    if i < j {
        lemma_unreserved_before_grows(slots, i, j - 1);
    }
}

/// Once `limit` unreserved messages have been seen, or a queue has been
/// walked to its end, no later message is picked.
pub proof fn lemma_heads_end(slots: Seq<SlotView>, limit: nat, j: int, m: int)
    requires
        0 <= j <= m,
        unreserved_before(slots, j) >= limit || j >= slots.len(),
    ensures
        heads(slots, limit, m) == heads(slots, limit, j),
    decreases m - j,
{
    if j < m {
        lemma_heads_end(slots, limit, j, m - 1);
        lemma_unreserved_before_grows(slots, j, m - 1);
    }
}

/// The same for the messages handed out by a reservation.
pub proof fn lemma_leases_end(slots: Seq<SlotView>, tokens: Seq<Seq<char>>, j: int, m: int)
    requires
        0 <= j <= m,
        unreserved_before(slots, j) >= tokens.len() || j >= slots.len(),
    ensures
        leases(slots, tokens, m) == leases(slots, tokens, j),
    decreases m - j,
{
    if j < m {
        lemma_leases_end(slots, tokens, j, m - 1);
        lemma_unreserved_before_grows(slots, j, m - 1);
    }
}

impl QueueRecordView {
    /// The `limit` oldest unreserved messages, oldest first.
    pub open spec fn peek(self, limit: nat) -> Seq<MessageView> {
        heads(self.slots, limit, self.slots.len() as int)
    }

    /// How many messages are unreserved.
    pub open spec fn unreserved_count(self) -> nat {
        unreserved_before(self.slots, self.slots.len() as int)
    }

    /// The queue after its oldest unreserved messages have been reserved,
    /// one for each token.
    pub open spec fn reserved(self, tokens: Seq<Seq<char>>) -> QueueRecordView {
        QueueRecordView {
            slots: Seq::new(
                self.slots.len(),
                |j: int|
                    if is_picked(self.slots, tokens.len(), j) {
                        lease_at(self.slots, tokens, j)
                    } else {
                        self.slots[j]
                    },
            ),
            ..self
        }
    }

    /// The messages that such a reservation hands out, oldest first.
    pub open spec fn leases(self, tokens: Seq<Seq<char>>) -> Seq<MessageView> {
        leases(self.slots, tokens, self.slots.len() as int)
    }
}

impl StoreView {
    /// What a peek at the queue with the name shows: its oldest unreserved
    /// messages, oldest first, as many as asked for.
    pub open spec fn peek(self, queue: Seq<char>, n: i32) -> Result<Seq<MessageView>, QueueError> {
        if !self.holds(queue) {
            Err(QueueError::QueueNotFound)
        } else {
            Ok(self.queue(queue).peek(limit_of(n, self.queue(queue).slots.len())))
        }
    }

    /// The store after the oldest unreserved messages of the queue with
    /// the name have been reserved, one for each token, and, where this is
    /// asked for, deleted as soon as they were handed out.
    pub open spec fn reserved(self, queue: Seq<char>, tokens: Seq<Seq<char>>, delete: bool) -> StoreView {
        if !self.holds(queue) {
            self
        } else {
            let moved = self.with_queue(queue, self.queue(queue).reserved(tokens));
            if delete {
                moved.deleted_all(queue, ids_of(self.queue(queue).leases(tokens)))
            } else {
                moved
            }
        }
    }
}

/// A reservation keeps the queue well-formed, and changes neither the
/// number of its messages nor their ids or sequence numbers.
pub proof fn lemma_reserved(queue: QueueRecordView, tokens: Seq<Seq<char>>)
    requires
        queue.wf(),
    ensures
        queue.reserved(tokens).wf(),
        queue.reserved(tokens).slots.len() == queue.slots.len(),
        forall|j: int|
            0 <= j < queue.slots.len() ==> {
                &&& (#[trigger] queue.reserved(tokens).slots[j]).msg.id == queue.slots[j].msg.id
                &&& queue.reserved(tokens).slots[j].score == queue.slots[j].score
            },
{
    let after = queue.reserved(tokens);
    assert forall|i: int| 0 <= i < after.slots.len() implies (#[trigger] after.slots[i]).wf() && (
    #[trigger] after.slots[i]).score < after.counter by {
        assert(queue.slots[i].wf());
        assert(queue.slots[i].score < queue.counter);
    }
    assert forall|i: int, j: int| 0 <= i < j < after.slots.len() implies (
    #[trigger] after.slots[i]).score < (#[trigger] after.slots[j]).score && (
    #[trigger] after.slots[i]).msg.id != (#[trigger] after.slots[j]).msg.id by {
        assert(queue.slots[i].score < queue.slots[j].score);
        assert(queue.slots[i].msg.id != queue.slots[j].msg.id);
    }
}

impl Slot {
    fn lease(&mut self, token: String)
        ensures
            final(self)@ == old(self)@.leased(token@),
    {
        self.reserved = true;
        if self.msg.reservation_id.is_none() {
            self.msg.reservation_id = Some(token);
        }
        self.msg.state = Some(MessageState::Reserved);
        let count: u32 = match self.msg.reserved_count {
            Some(c) => if c < u32::MAX {
                c + 1
            } else {
                c
            },
            None => 1,
        };
        self.msg.reserved_count = Some(count);
    }
}

impl QueueRecord {
    /// The oldest unreserved messages, as many as the limit allows.
    fn oldest(&self, limit: usize) -> (out: Vec<Message>)
        ensures
            out.deep_view() == self@.peek(limit as nat),
    {
        let mut out: Vec<Message> = Vec::new();
        let mut j: usize = 0;
        assert(out.deep_view() =~= heads(self@.slots, limit as nat, 0));
        while j < self.slots.len() && out.len() < limit
            invariant
                j <= self.slots.len(),
                self.slots.len() == self@.slots.len(),
                out.len() == unreserved_before(self@.slots, j as int),
                out.len() <= limit,
                out.deep_view() == heads(self@.slots, limit as nat, j as int),
            decreases self.slots.len() - j,
        {
            if !self.slots[j].reserved {
                let ghost before = out.deep_view();
                out.push(self.slots[j].msg.clone());
                assert(out.deep_view() =~= before.push(self@.slots[j as int].msg));
            }
            j = j + 1;
        }
        proof {
            lemma_heads_end(self@.slots, limit as nat, j as int, self@.slots.len() as int);
        }
        out
    }

    /// How many messages a reservation with this limit takes.
    fn count_oldest(&self, limit: usize) -> (count: usize)
        ensures
            count == if self@.unreserved_count() < limit {
                self@.unreserved_count()
            } else {
                limit as nat
            },
    {
        let mut count: usize = 0;
        let mut j: usize = 0;
        while j < self.slots.len() && count < limit
            invariant
                j <= self.slots.len(),
                self.slots.len() == self@.slots.len(),
                count == unreserved_before(self@.slots, j as int),
                count <= limit,
                count <= j,
            decreases self.slots.len() - j,
        {
            if !self.slots[j].reserved {
                count = count + 1;
            }
            j = j + 1;
        }
        proof {
            lemma_unreserved_before_grows(self@.slots, j as int, self@.slots.len() as int);
        }
        count
    }

    /// Reserves the oldest unreserved messages, one for each token, and
    /// hands them out.
    fn lease_oldest(&mut self, tokens: &Vec<String>) -> (out: Vec<Message>)
        ensures
            final(self)@ == old(self)@.reserved(tokens.deep_view()),
            out.deep_view() == old(self)@.leases(tokens.deep_view()),
    {
        let ghost before = self@;
        let ghost toks = tokens.deep_view();
        let mut out: Vec<Message> = Vec::new();
        let mut j: usize = 0;
        assert(out.deep_view() =~= leases(before.slots, toks, 0));
        while j < self.slots.len() && out.len() < tokens.len()
            invariant
                before == old(self)@,
                toks == tokens.deep_view(),
                toks.len() == tokens.len(),
                j <= self.slots.len(),
                self.slots.len() == before.slots.len(),
                self@.slots.len() == before.slots.len(),
                self@.info == before.info,
                self@.counter == before.counter,
                forall|i: int|
                    0 <= i < j ==> (#[trigger] self@.slots[i]) == if is_picked(
                        before.slots,
                        toks.len(),
                        i,
                    ) {
                        lease_at(before.slots, toks, i)
                    } else {
                        before.slots[i]
                    },
                forall|i: int|
                    j <= i < before.slots.len() ==> (#[trigger] self@.slots[i]) == before.slots[i],
                out.len() == unreserved_before(before.slots, j as int),
                out.len() <= tokens.len(),
                out.deep_view() == leases(before.slots, toks, j as int),
            decreases self.slots.len() - j,
        {
            let ghost now = self@;
            assert(now.slots[j as int] == before.slots[j as int]);
            if !self.slots[j].reserved {
                let ghost handed = out.deep_view();
                let token = tokens[out.len()].clone();
                assert(token@ == toks[out.len() as int]);
                self.slots[j].lease(token);
                out.push(self.slots[j].msg.clone());
                assert(self@.slots[j as int] == lease_at(before.slots, toks, j as int));
                assert(out.deep_view() =~= handed.push(lease_at(before.slots, toks, j as int).msg));
                assert forall|i: int| 0 <= i < self@.slots.len() && i != j implies (
                #[trigger] self@.slots[i]) == now.slots[i] by {}
            }
            j = j + 1;
        }
        proof {
            lemma_leases_end(before.slots, toks, j as int, before.slots.len() as int);
            assert forall|i: int| j <= i < before.slots.len() implies !is_picked(
                before.slots,
                toks.len(),
                i,
            ) by {
                lemma_unreserved_before_grows(before.slots, j as int, i);
            }
            assert(self@.slots =~= before.reserved(toks).slots);
        }
        out
    }
}

/// Every message that a reservation hands out has an id.
pub proof fn lemma_leases_have_ids(slots: Seq<SlotView>, tokens: Seq<Seq<char>>, j: int)
    requires
        0 <= j <= slots.len(),
        forall|i: int| 0 <= i < slots.len() ==> (#[trigger] slots[i]).wf(),
    ensures
        forall|k: int|
            0 <= k < leases(slots, tokens, j).len() ==> (#[trigger] leases(
                slots,
                tokens,
                j,
            )[k]).id is Some,
    decreases j,
{
    if j > 0 {
        lemma_leases_have_ids(slots, tokens, j - 1);
        assert(slots[j - 1].wf());
    }
}

impl QueueRecordView {
    /// How many messages a reservation of `n` takes: as many as are asked
    /// for, or as many as are unreserved where these are fewer.
    pub open spec fn take_count(self, n: i32) -> nat {
        let limit = limit_of(n, self.slots.len());
        if self.unreserved_count() < limit {
            self.unreserved_count()
        } else {
            limit
        }
    }
}

/// The limit that a request for `n` messages puts on a queue of `len`
/// messages.
fn limit_for(n: i32, len: usize) -> (limit: usize)
    ensures
        limit == limit_of(n, len as nat),
{
    if n < 0 {
        len
    } else {
        n as usize
    }
}

/// Shows the oldest unreserved messages of the queue with the name, oldest
/// first, without changing anything. A negative number asks for all of
/// them.
pub fn peek_messages(store: &Store, queue_name: &String, number_to_peek: &i32) -> (shown: Result<
    Vec<Message>,
    QueueError,
>)
    requires
        store@.wf(),
    ensures
        match shown {
            Ok(msgs) => store@.peek(queue_name@, *number_to_peek) == Ok::<
                Seq<MessageView>,
                QueueError,
            >(msgs.deep_view()),
            Err(e) => store@.peek(queue_name@, *number_to_peek) == Err::<
                Seq<MessageView>,
                QueueError,
            >(e),
        },
{
    let qi = match store.find(queue_name) {
        Some(qi) => qi,
        None => { return Err(QueueError::QueueNotFound); },
    };
    let limit = limit_for(*number_to_peek, store.queues[qi].slots.len());
    Ok(store.queues[qi].oldest(limit))
}

/// Reserves the oldest unreserved messages of the queue with the name, one
/// for each token that the caller brings, and hands them out, oldest
/// first. Each keeps its sequence number, and with it its place in the
/// queue. Where `delete` is set, each is deleted as soon as it is handed
/// out.
pub fn reserve_with_tokens(
    store: &mut Store,
    queue_name: &String,
    tokens: Vec<String>,
    delete: bool,
) -> (handed: Result<Vec<Message>, QueueError>)
    requires
        old(store)@.wf(),
    ensures
        final(store)@.wf(),
        final(store)@ == old(store)@.reserved(queue_name@, tokens.deep_view(), delete),
        match handed {
            Ok(msgs) => {
                &&& old(store)@.holds(queue_name@)
                &&& msgs.deep_view() == old(store)@.queue(queue_name@).leases(tokens.deep_view())
            },
            Err(e) => !old(store)@.holds(queue_name@) && e == QueueError::QueueNotFound,
        },
{
    let qi = match store.find(queue_name) {
        Some(qi) => qi,
        None => { return Err(QueueError::QueueNotFound); },
    };
    let out = store.queues[qi].lease_oldest(&tokens);
    proof {
        let before = old(store)@;
        let queue = before.queue(queue_name@);
        lemma_reserved(queue, tokens.deep_view());
        lemma_with_queue(before, queue_name@, queue.reserved(tokens.deep_view()));
        assert(store@.queues =~= before.with_queue(
            queue_name@,
            queue.reserved(tokens.deep_view()),
        ).queues);
        lemma_leases_have_ids(queue.slots, tokens.deep_view(), queue.slots.len() as int);
    }
    if delete {
        let mut ids: Vec<String> = Vec::new();
        let mut k: usize = 0;
        while k < out.len()
            invariant
                k <= out.len(),
                ids.len() == k,
                forall|i: int| 0 <= i < out.len() ==> (#[trigger] out.deep_view()[i]).id is Some,
                forall|i: int| 0 <= i < k ==> (#[trigger] ids[i])@ == out[i]@.id->0,
            decreases out.len() - k,
        {
            assert(out.deep_view()[k as int].id is Some);
            let id = match &out[k].id {
                Some(id) => id.clone(),
                None => String::new(),
            };
            ids.push(id);
            k = k + 1;
        }
        assert(ids.deep_view() =~= ids_of(out.deep_view()));
        let _ = delete_each(store, queue_name, &ids);
    }
    Ok(out)
}

/// Reserving under no token changes nothing and hands out nothing.
pub proof fn lemma_reserve_nothing(
    store: StoreView,
    queue: Seq<char>,
    tokens: Seq<Seq<char>>,
    delete: bool,
)
    requires
        store.holds(queue),
        tokens.len() == 0,
    ensures
        store.reserved(queue, tokens, delete) == store,
        store.queue(queue).leases(tokens) == Seq::<MessageView>::empty(),
{
    let before = store.queue(queue);
    let p = store.position(queue);
    assert(store.is_at(queue, p));
    lemma_leases_end(before.slots, tokens, 0, before.slots.len() as int);
    assert(before.reserved(tokens).slots =~= before.slots);
    assert(store.with_queue(queue, before.reserved(tokens)).queues =~= store.queues);
    assert(ids_of(before.leases(tokens)) =~= Seq::<Seq<char>>::empty());
}

/// Reserves the oldest unreserved messages of the queue with the name, as
/// many as are asked for, each under a fresh token of its own, and hands
/// them out, oldest first. A negative number asks for all of them. Where
/// the request says so, each message is deleted as soon as it is handed
/// out. Where there is nothing to reserve, the call succeeds with an empty
/// list and changes nothing.
pub fn reserve_messages(
    store: &mut Store,
    queue_name: &String,
    reserve_params: &ReserveMessageParams,
) -> (handed: Result<Vec<Message>, QueueError>)
    requires
        old(store)@.wf(),
    ensures
        final(store)@.wf(),
        old(store)@.holds(queue_name@) && old(store)@.queue(queue_name@).take_count(
            reserve_params.n,
        ) == 0 ==> handed is Ok && handed->Ok_0.len() == 0 && final(store)@ == old(store)@,
        match handed {
            Ok(msgs) => {
                &&& old(store)@.holds(queue_name@)
                &&& msgs.len() == old(store)@.queue(queue_name@).take_count(reserve_params.n)
                &&& exists|tokens: Seq<Seq<char>>|
                    {
                        &&& tokens.len() == old(store)@.queue(queue_name@).take_count(
                            reserve_params.n,
                        )
                        &&& forall|i: int| 0 <= i < tokens.len() ==> is_object_id(#[trigger] tokens[i])
                        &&& distinct(tokens)
                        &&& final(store)@ == old(store)@.reserved(
                            queue_name@,
                            tokens,
                            reserve_params.delete == Some(true),
                        )
                        &&& msgs.deep_view() == old(store)@.queue(queue_name@).leases(tokens)
                    }
            },
            Err(e) => {
                &&& final(store)@ == old(store)@
                &&& e == if old(store)@.holds(queue_name@) {
                    QueueError::StoreConflict
                } else {
                    QueueError::QueueNotFound
                }
            },
        },
{
    let qi = match store.find(queue_name) {
        Some(qi) => qi,
        None => { return Err(QueueError::QueueNotFound); },
    };
    let limit = limit_for(reserve_params.n, store.queues[qi].slots.len());
    let count = store.queues[qi].count_oldest(limit);
    let tokens = match fresh_distinct(count) {
        Some(tokens) => tokens,
        None => { return Err(QueueError::StoreConflict); },
    };
    let ghost toks = tokens.deep_view();
    let delete = match reserve_params.delete {
        Some(delete) => delete,
        None => false,
    };
    let handed = reserve_with_tokens(store, queue_name, tokens, delete);
    proof {
        let before = old(store)@.queue(queue_name@);
        assert(toks.len() == before.take_count(reserve_params.n));
        assert forall|i: int| 0 <= i < toks.len() implies is_object_id(#[trigger] toks[i]) by {}
        assert(old(store)@.is_at(queue_name@, old(store)@.position(queue_name@)));
        crate::mq::laws::reserve_hands_out_what_peek_shows(before, toks);
        if toks.len() == 0 {
            lemma_reserve_nothing(old(store)@, queue_name@, toks, delete);
        }
    }
    handed
}

} // verus!
