//! What the broker offers to the layer that speaks HTTP: the operations
//! on messages that first ask whether the client may do what it asks for,
//! and the status that tells a client how its request has ended.

use vstd::prelude::*;
use crate::error::QueueError;
use crate::ids::{fresh_id, is_object_id, is_taken};
use crate::message::{may_delete, Message, MessageDeleteBodyRequest};
use crate::mq::message::{
    delete, delete_messages, enqueue_with_id, get_message, requested_ids, Enqueued, ID_ATTEMPTS,
};
use crate::mq::{SlotView, Store, StoreView};

verus! {

/// How many messages a peek shows where the request names no number.
pub const MAXIMUM_NUMBER_TO_PEEK: i32 = 1;

/// The number of messages that a peek is to show.
pub fn peek_count(n: Option<i32>) -> (count: i32)
    ensures
        count == match n {
            Some(n) => n,
            None => MAXIMUM_NUMBER_TO_PEEK,
        },
{
    match n {
        Some(n) => n,
        None => MAXIMUM_NUMBER_TO_PEEK,
    }
}

impl QueueError {
    /// The HTTP status that reports the error to a client.
    pub open spec fn status(self) -> u16 {
        match self {
            QueueError::TypeError => 403,
            QueueError::SubscriberError => 400,
            QueueError::QueueNotFound => 404,
            QueueError::MessageNotFound => 404,
            QueueError::OwnershipError => 400,
            QueueError::StoreConflict => 500,
            QueueError::SequenceExhausted => 500,
        }
    }

    /// The HTTP status that reports the error to a client: what the client
    /// asked for is forbidden where it would change the type of a queue,
    /// a bad request where it would leave a push queue without subscribers
    /// or comes without the right token, not found where the queue or the
    /// message is missing, and a fault of the server otherwise.
    pub fn http_status(&self) -> (status: u16)
        ensures
            status == self.status(),
            self.is_not_found() <==> status == 404,
            self.is_configuration() ==> status == 403 || status == 400,
    {
        match self {
            QueueError::TypeError => 403,
            QueueError::SubscriberError => 400,
            QueueError::QueueNotFound => 404,
            QueueError::MessageNotFound => 404,
            QueueError::OwnershipError => 400,
            QueueError::StoreConflict => 500,
            QueueError::SequenceExhausted => 500,
        }
    }
}

impl StoreView {
    /// Whether a client may delete the message with the id: the message
    /// exists, and where it is reserved, the client presents its token.
    pub open spec fn delete_permit(
        self,
        queue: Seq<char>,
        id: Seq<char>,
        presented: Option<Seq<char>>,
    ) -> Result<(), QueueError> {
        match self.locate(queue, id) {
            Err(e) => Err(e),
            Ok(slot) => if may_delete(presented, slot.msg) {
                Ok(())
            } else {
                Err(QueueError::OwnershipError)
            },
        }
    }

    /// Whether one of the requests asks for a reserved message without
    /// presenting its token.
    pub open spec fn refuses(self, queue: Seq<char>, requests: Seq<MessageDeleteBodyRequest>) -> bool {
        exists|k: int|
            0 <= k < requests.len() && #[trigger] self.delete_permit(
                queue,
                requests[k].id@,
                requests[k].reservation_id.deep_view(),
            ) == Err::<(), QueueError>(QueueError::OwnershipError)
    }
}

/// Deletes the message with the id for a client: an unreserved message for
/// anyone, a reserved one for the client that presents its token.
pub fn delete_for_client(
    store: &mut Store,
    queue_name: &String,
    request: &MessageDeleteBodyRequest,
) -> (deleted: Result<bool, QueueError>)
    requires
        old(store)@.wf(),
    ensures
        final(store)@.wf(),
        match old(store)@.delete_permit(
            queue_name@,
            request.id@,
            request.reservation_id.deep_view(),
        ) {
            Ok(_) => {
                &&& deleted == Ok::<bool, QueueError>(true)
                &&& final(store)@ == old(store)@.deleted(queue_name@, request.id@)
            },
            Err(e) => deleted == Err::<bool, QueueError>(e) && final(store)@ == old(store)@,
        },
{
    let message = match get_message(store, queue_name, &request.id) {
        Ok(message) => message,
        Err(e) => { return Err(e); },
    };
    if !request.is_valid_for(&message) {
        return Err(QueueError::OwnershipError);
    }
    delete(store, queue_name.clone(), request.id.clone())
}

/// Deletes the messages that the requests name for a client, in the order
/// of the requests, and says of each whether the queue held it. Where one
/// of the requests asks for a reserved message without its token, nothing
/// is deleted at all.
pub fn delete_batch_for_client(
    store: &mut Store,
    queue_name: &String,
    requests: &Vec<MessageDeleteBodyRequest>,
) -> (deleted: Result<Vec<bool>, QueueError>)
    requires
        old(store)@.wf(),
    ensures
        final(store)@.wf(),
        if !old(store)@.holds(queue_name@) {
            deleted == Err::<Vec<bool>, QueueError>(QueueError::QueueNotFound) && final(store)@
                == old(store)@
        } else if old(store)@.refuses(queue_name@, requests@) {
            deleted == Err::<Vec<bool>, QueueError>(QueueError::OwnershipError) && final(store)@
                == old(store)@
        } else {
            &&& deleted is Ok
            &&& deleted->Ok_0@ == old(store)@.deletions(queue_name@, requested_ids(requests@))
            &&& final(store)@ == old(store)@.deleted_all(queue_name@, requested_ids(requests@))
        },
{
    let mut k: usize = 0;
    while k < requests.len()
        invariant
            store@ == old(store)@,
            store@.wf(),
            k <= requests.len(),
            forall|i: int|
                0 <= i < k ==> #[trigger] store@.delete_permit(
                    queue_name@,
                    requests[i].id@,
                    requests[i].reservation_id.deep_view(),
                ) != Err::<(), QueueError>(QueueError::OwnershipError),
            k > 0 ==> store@.holds(queue_name@),
        decreases requests.len() - k,
    {
        match get_message(store, queue_name, &requests[k].id) {
            Ok(message) => {
                if !requests[k].is_valid_for(&message) {
                    assert(store@.delete_permit(
                        queue_name@,
                        requests[k as int].id@,
                        requests[k as int].reservation_id.deep_view(),
                    ) == Err::<(), QueueError>(QueueError::OwnershipError));
                    return Err(QueueError::OwnershipError);
                }
            },
            Err(QueueError::QueueNotFound) => { return Err(QueueError::QueueNotFound); },
            Err(_) => {},
        }
        k = k + 1;
    }
    delete_messages(store, queue_name.clone(), requests)
}

impl StoreView {
    /// The store after messages have been enqueued one after the other,
    /// each given as its body and the id under which it is stored.
    pub open spec fn enqueued_all(self, queue: Seq<char>, messages: Seq<(Seq<char>, Seq<char>)>) -> StoreView
        decreases messages.len(),
    {
        if messages.len() == 0 {
            self
        } else {
            self.enqueued_all(queue, messages.drop_last()).enqueued(
                queue,
                messages.last().0,
                messages.last().1,
            )
        }
    }
}

/// The first `count` messages of a request, each as its body and the id
/// that it was given.
pub open spec fn accepted_messages(messages: Seq<Message>, sent: Seq<Enqueued>, count: int) -> Seq<
    (Seq<char>, Seq<char>),
> {
    Seq::new(count as nat, |i: int| (messages[i]@.body, sent[i].id@))
}

/// Enqueues the bodies of the messages, in their order, each under a
/// fresh id, and returns what became of each: its id, and what is to be
/// broadcast for it. It stops at the first message that the queue does not
/// take or for which no fresh id can be had; the messages before that one
/// are enqueued.
pub fn post_messages(store: &mut Store, queue_name: &String, messages: Vec<Message>) -> (sent:
    Vec<Enqueued>)
    requires
        old(store)@.wf(),
    ensures
        final(store)@.wf(),
        sent.len() <= messages.len(),
        !old(store)@.holds(queue_name@) ==> sent.len() == 0,
        final(store)@ == old(store)@.enqueued_all(
            queue_name@,
            accepted_messages(messages@, sent@, sent.len() as int),
        ),
        forall|i: int|
            0 <= i < sent.len() ==> {
                let before = old(store)@.enqueued_all(
                    queue_name@,
                    accepted_messages(messages@, sent@, i),
                );
                &&& is_object_id((#[trigger] sent[i]).id@)
                &&& before.admission(queue_name@, sent[i].id@) is Ok
                &&& sent[i].broadcast.deep_view() == before.broadcast(
                    queue_name@,
                    messages[i]@.body,
                    sent[i].id@,
                )
            },
{
    let ids = fresh_ids(store, queue_name, messages.len());
    let ghost given = ids.deep_view();
    let ghost pairs = paired(messages@, given);
    let sent = post_with_ids(store, queue_name, &messages, ids);
    proof {
        assert forall|j: int| 0 <= j < sent.len() implies j < given.len() && j < messages.len()
            && (#[trigger] sent@[j]).id@ == given[j] && is_object_id(given[j]) by {
            assert(sent[j].id@ == ids[j]@);
        }
        if sent.len() > 0 {
            let last = sent@[sent.len() - 1];
            assert(sent.len() - 1 < messages.len() && sent.len() - 1 < given.len());
        }
        assert(sent.len() <= pairs.len());
        assert forall|i: int| 0 <= i <= sent.len() implies #[trigger] accepted_messages(
            messages@,
            sent@,
            i,
        ) == pairs.take(i) by {
            assert forall|j: int| 0 <= j < i implies accepted_messages(messages@, sent@, i)[j]
                == pairs.take(i)[j] by {
                let at = sent@[j];
            }
            assert(accepted_messages(messages@, sent@, i) =~= pairs.take(i));
        }
        if sent.len() > 0 {
            assert(pairs.take(0) =~= Seq::empty());
            assert(old(store)@.admission(queue_name@, sent[0].id@) is Ok);
        }
    }
    sent
}

/// The messages of a request, each as its body and the id that it is to
/// get: as many as there are messages with an id.
pub open spec fn paired(messages: Seq<Message>, ids: Seq<Seq<char>>) -> Seq<(Seq<char>, Seq<char>)> {
    Seq::new(
        if messages.len() < ids.len() {
            messages.len()
        } else {
            ids.len()
        },
        |i: int| (messages[i]@.body, ids[i]),
    )
}

impl StoreView {
    /// How many of the messages the queue with the name takes when they
    /// are enqueued one after the other: all that come before the first
    /// that it refuses.
    pub open spec fn admitted(self, queue: Seq<char>, messages: Seq<(Seq<char>, Seq<char>)>) -> nat
        decreases messages.len(),
    {
        if messages.len() == 0 {
            0
        } else {
            let before = self.admitted(queue, messages.drop_last());
            if before == messages.len() - 1 && self.enqueued_all(
                queue,
                messages.drop_last(),
            ).admission(queue, messages.last().1) is Ok {
                messages.len()
            } else {
                before
            }
        }
    }
}

/// Once a message has been refused, none of those behind it is taken.
pub proof fn lemma_admitted_stops(
    store: StoreView,
    queue: Seq<char>,
    messages: Seq<(Seq<char>, Seq<char>)>,
    k: int,
    m: int,
)
    requires
        0 <= k < m <= messages.len(),
        store.admitted(queue, messages.take(k + 1)) == k,
    ensures
        store.admitted(queue, messages.take(m)) == k,
    decreases m - k,
{
    if m > k + 1 {
        lemma_admitted_stops(store, queue, messages, k, m - 1);
        assert(messages.take(m).drop_last() =~= messages.take(m - 1));
    }
}

/// Enqueues the bodies of the messages, in their order, each under the id
/// that the caller brings for it, and returns what became of each: its id,
/// and what is to be broadcast for it. It stops at the first message that
/// the queue does not take, and at the first for which there is no id; the
/// messages before that one are enqueued.
pub fn post_with_ids(
    store: &mut Store,
    queue_name: &String,
    messages: &Vec<Message>,
    ids: Vec<String>,
) -> (sent: Vec<Enqueued>)
    requires
        old(store)@.wf(),
    ensures
        final(store)@.wf(),
        sent.len() == old(store)@.admitted(queue_name@, paired(messages@, ids.deep_view())),
        final(store)@ == old(store)@.enqueued_all(
            queue_name@,
            paired(messages@, ids.deep_view()).take(sent.len() as int),
        ),
        forall|i: int|
            0 <= i < sent.len() ==> {
                let before = old(store)@.enqueued_all(
                    queue_name@,
                    paired(messages@, ids.deep_view()).take(i),
                );
                &&& i < ids.len()
                &&& i < messages.len()
                &&& (#[trigger] sent[i]).id@ == ids[i]@
                &&& before.admission(queue_name@, ids[i]@) is Ok
                &&& sent[i].broadcast.deep_view() == before.broadcast(
                    queue_name@,
                    messages[i]@.body,
                    ids[i]@,
                )
            },
{
    let ghost pairs = paired(messages@, ids.deep_view());
    let mut sent: Vec<Enqueued> = Vec::new();
    let mut k: usize = 0;
    assert(pairs.take(0) =~= Seq::empty());
    while k < messages.len() && k < ids.len()
        invariant
            store@.wf(),
            pairs == paired(messages@, ids.deep_view()),
            k <= pairs.len(),
            sent.len() == k,
            old(store)@.admitted(queue_name@, pairs.take(k as int)) == k,
            store@ == old(store)@.enqueued_all(queue_name@, pairs.take(k as int)),
            forall|i: int|
                0 <= i < sent.len() ==> {
                    let before = old(store)@.enqueued_all(queue_name@, pairs.take(i));
                    &&& i < ids.len()
                    &&& i < messages.len()
                    &&& (#[trigger] sent[i]).id@ == ids[i]@
                    &&& before.admission(queue_name@, ids[i]@) is Ok
                    &&& sent[i].broadcast.deep_view() == before.broadcast(
                        queue_name@,
                        messages[i]@.body,
                        ids[i]@,
                    )
                },
        decreases pairs.len() - k,
    {
        proof {
            assert(pairs.take(k as int + 1).drop_last() =~= pairs.take(k as int));
            assert(pairs.take(k as int + 1).last() == (messages[k as int]@.body, ids[k as int]@));
        }
        match enqueue_with_id(store, queue_name, &messages[k].body, ids[k].clone()) {
            Ok(broadcast) => { sent.push(Enqueued { id: ids[k].clone(), broadcast }); },
            Err(_) => {
                proof {
                    lemma_admitted_stops(
                        old(store)@,
                        queue_name@,
                        pairs,
                        k as int,
                        pairs.len() as int,
                    );
                    assert(pairs.take(pairs.len() as int) =~= pairs);
                }
                return sent;
            },
        }
        k = k + 1;
    }
    proof {
        assert(pairs.take(pairs.len() as int) =~= pairs);
    }
    sent
}

/// Fresh ids for new messages of the queue with the name, as many as are
/// asked for: each has the form of an object id, the queue holds no
/// message under it, and no two are the same. An id that does not meet
/// this is not used: another is asked for, a few times at most. There are
/// fewer ids than were asked for where no more could be had, and none
/// where there is no such queue.
pub fn fresh_ids(store: &Store, queue_name: &String, count: usize) -> (ids: Vec<String>)
    requires
        store@.wf(),
    ensures
        ids.len() <= count,
        !store@.holds(queue_name@) ==> ids.len() == 0,
        forall|i: int|
            0 <= i < ids.len() ==> is_object_id((#[trigger] ids[i])@) && store@.locate(
                queue_name@,
                ids[i]@,
            ) == Err::<SlotView, QueueError>(QueueError::MessageNotFound),
        forall|i: int, j: int| 0 <= i < j < ids.len() ==> (#[trigger] ids[i])@ != (#[trigger] ids[j])@,
{
    let mut ids: Vec<String> = Vec::new();
    while ids.len() < count
        invariant
            ids.len() <= count,
            store@.wf(),
            !store@.holds(queue_name@) ==> ids.len() == 0,
            forall|i: int|
                0 <= i < ids.len() ==> is_object_id((#[trigger] ids[i])@) && store@.locate(
                    queue_name@,
                    ids[i]@,
                ) == Err::<SlotView, QueueError>(QueueError::MessageNotFound),
            forall|i: int, j: int|
                0 <= i < j < ids.len() ==> (#[trigger] ids[i])@ != (#[trigger] ids[j])@,
        decreases count - ids.len(),
    {
        let mut found: Option<String> = None;
        let mut attempt: u32 = 0;
        while attempt < ID_ATTEMPTS && found.is_none()
            invariant
                store@.wf(),
                attempt <= ID_ATTEMPTS,
                ids.len() < count,
                !store@.holds(queue_name@) ==> ids.len() == 0,
                forall|i: int|
                    0 <= i < ids.len() ==> is_object_id((#[trigger] ids[i])@) && store@.locate(
                        queue_name@,
                        ids[i]@,
                    ) == Err::<SlotView, QueueError>(QueueError::MessageNotFound),
                forall|i: int, j: int|
                    0 <= i < j < ids.len() ==> (#[trigger] ids[i])@ != (#[trigger] ids[j])@,
                found matches Some(id) ==> {
                    &&& is_object_id(id@)
                    &&& store@.locate(queue_name@, id@) == Err::<SlotView, QueueError>(
                        QueueError::MessageNotFound,
                    )
                    &&& forall|i: int| 0 <= i < ids.len() ==> (#[trigger] ids[i])@ != id@
                },
            decreases ID_ATTEMPTS - attempt,
        {
            attempt = attempt + 1;
            let candidate = match fresh_id() {
                Some(candidate) => candidate,
                None => { return ids; },
            };
            match get_message(store, queue_name, &candidate) {
                Ok(_) => {},
                Err(QueueError::MessageNotFound) => {
                    if !is_taken(&ids, &candidate) {
                        found = Some(candidate);
                    }
                },
                Err(_) => { return ids; },
            }
        }
        match found {
            Some(id) => { ids.push(id); },
            None => { return ids; },
        }
    }
    ids
}

/// Where a client is sent that asks for the root of the service.
#[derive(Debug)]
pub struct Index {
    pub goto: String,
}

/// The answer to a request for the root of the service.
pub fn index() -> (index: Index)
    ensures
        index.goto@ == "http://www.iron.io"@,
{
    Index { goto: "http://www.iron.io".to_owned() }
}

/// How a request has ended that the broker has carried out.
#[derive(Clone, Copy, Debug, PartialEq, Eq, Structural)]
pub enum Reply {
    MessagesPut,
    Deleted,
    Cleared,
    Touched,
    Released,
    Updated,
    NotUpdated,
    QueueDeleted,
}

impl Reply {
    /// The HTTP status of the reply: a message that was put on a queue
    /// was created, everything else is in order.
    pub open spec fn status(self) -> u16 {
        match self {
            Reply::MessagesPut => 201,
            _ => 200,
        }
    }

    pub open spec fn text(self) -> Seq<char> {
        match self {
            Reply::MessagesPut => "Messages put on queue."@,
            Reply::Deleted => "Deleted"@,
            Reply::Cleared => "Cleared"@,
            Reply::Touched => "Touched"@,
            Reply::Released => "Released"@,
            Reply::Updated => "Updated"@,
            Reply::NotUpdated => "Not Updated"@,
            Reply::QueueDeleted => "Deleted."@,
        }
    }

    /// The HTTP status of the reply.
    pub fn http_status(&self) -> (status: u16)
        ensures
            status == self.status(),
    {
        match self {
            Reply::MessagesPut => 201,
            _ => 200,
        }
    }

    /// The sentence that tells the client what was done.
    pub fn to_text(&self) -> (text: String)
        ensures
            text@ == self.text(),
    {
        match self {
            Reply::MessagesPut => "Messages put on queue.".to_owned(),
            Reply::Deleted => "Deleted".to_owned(),
            Reply::Cleared => "Cleared".to_owned(),
            Reply::Touched => "Touched".to_owned(),
            Reply::Released => "Released".to_owned(),
            Reply::Updated => "Updated".to_owned(),
            Reply::NotUpdated => "Not Updated".to_owned(),
            Reply::QueueDeleted => "Deleted.".to_owned(),
        }
    }
}

/// How a change of subscribers is reported.
pub fn subscribers_reply(changed: bool) -> (reply: Reply)
    ensures
        reply == if changed {
            Reply::Updated
        } else {
            Reply::NotUpdated
        },
{
    if changed {
        Reply::Updated
    } else {
        Reply::NotUpdated
    }
}

/// How a release is reported: a message that was not released is, to the
/// client, a message that is not there.
pub fn released_reply(released: bool) -> (reply: Result<Reply, QueueError>)
    ensures
        reply == if released {
            Ok::<Reply, QueueError>(Reply::Released)
        } else {
            Err::<Reply, QueueError>(QueueError::MessageNotFound)
        },
{
    if released {
        Ok(Reply::Released)
    } else {
        Err(QueueError::MessageNotFound)
    }
}

/// How the deletion of a queue is reported: as done where the registry
/// says that it is. The registry says so for every name, so that a queue
/// can be deleted again and again.
pub fn queue_deleted_reply(deleted: bool) -> (reply: Result<Reply, QueueError>)
    ensures
        reply == if deleted {
            Ok::<Reply, QueueError>(Reply::QueueDeleted)
        } else {
            Err::<Reply, QueueError>(QueueError::QueueNotFound)
        },
{
    if deleted {
        Ok(Reply::QueueDeleted)
    } else {
        Err(QueueError::QueueNotFound)
    }
}

/// How the removal of subscribers is reported: where nothing was removed,
/// the queue would have been left without a subscriber.
pub fn subscribers_deleted_reply(deleted: bool) -> (reply: Result<Reply, QueueError>)
    ensures
        reply == if deleted {
            Ok::<Reply, QueueError>(Reply::Updated)
        } else {
            Err::<Reply, QueueError>(QueueError::SubscriberError)
        },
{
    if deleted {
        Ok(Reply::Updated)
    } else {
        Err(QueueError::SubscriberError)
    }
}

} // verus!
