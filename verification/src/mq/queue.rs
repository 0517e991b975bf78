//! The queue registry: creating, reading, patching and deleting queue
//! configurations, and keeping the subscribers of push queues.

use vstd::prelude::*;
use crate::error::QueueError;
use crate::message::clone_text;
use crate::mq::message::lemma_with_queue;
use crate::mq::{lemma_queue_position, QueueRecord, QueueRecordView, Store, StoreView};
use crate::queue::{Queue, QueueLite};
use crate::subscribers::{merge_subscribers, merged, remove_subscribers, without};
use crate::queue_info::{
    lemma_patch_keeps_valid, PushView, QueueInfo, QueueInfoView, QueueState, QueueSubscriber,
    QueueType, SubscriberView,
};

verus! {

impl QueueInfoView {
    /// The configuration of a pull queue in which nothing but the name and
    /// the type is set.
    pub open spec fn pull(name: Seq<char>) -> QueueInfoView {
        QueueInfoView {
            name: Some(name),
            project_id: None,
            message_timeout: None,
            message_expiration: None,
            size: None,
            total_messages: None,
            push: None,
            alerts: None,
            queue_type: Some(QueueType::Pull),
        }
    }

    /// The name of the queue that takes the messages that could not be
    /// delivered, where the configuration names one.
    pub open spec fn error_queue(self) -> Option<Seq<char>> {
        match self.push {
            Some(push) => push.error_queue,
            None => None,
        }
    }

    /// The configuration with other subscribers.
    pub open spec fn with_subscribers(self, subscribers: Seq<SubscriberView>) -> QueueInfoView
        recommends
            self.push is Some,
    {
        QueueInfoView {
            push: Some(PushView { subscribers: Some(subscribers), ..self.push->0 }),
            ..self
        }
    }

    /// The subscribers of a push queue.
    pub open spec fn subscribers(self) -> Seq<SubscriberView>
        recommends
            self.push is Some,
            self.push->0.subscribers is Some,
    {
        self.push->0.subscribers->0
    }
}

impl QueueRecordView {
    /// A new queue: no messages, and the sequence counter at its start.
    pub open spec fn fresh(info: QueueInfoView) -> QueueRecordView {
        QueueRecordView { info, counter: 0, slots: Seq::empty() }
    }

    /// The configuration as it is reported: with the number of messages
    /// that the queue holds, and the number that it has ever received.
    pub open spec fn report(self) -> QueueInfoView {
        QueueInfoView {
            size: Some(self.slots.len() as usize),
            total_messages: Some(self.counter),
            ..self.info
        }
    }

    /// The queue under another configuration.
    pub open spec fn with_info(self, info: QueueInfoView) -> QueueRecordView {
        QueueRecordView { info, ..self }
    }
}

impl StoreView {
    /// The store with the configuration stored under its name. A queue
    /// that exists keeps its messages and its counter; a new one starts
    /// empty, behind the queues that are there.
    pub open spec fn put(self, info: QueueInfoView) -> StoreView
        recommends
            info.name is Some,
    {
        let name = info.name->0;
        if self.holds(name) {
            self.with_queue(name, self.queue(name).with_info(info))
        } else {
            StoreView { queues: self.queues.push(QueueRecordView::fresh(info)) }
        }
    }

    /// The store in which a queue with the name exists: where there was
    /// none, a new pull queue.
    pub open spec fn ensured(self, name: Seq<char>) -> StoreView {
        if self.holds(name) {
            self
        } else {
            StoreView {
                queues: self.queues.push(QueueRecordView::fresh(QueueInfoView::pull(name))),
            }
        }
    }

    /// The store in which the queue exists that an optional name speaks of.
    pub open spec fn ensured_if(self, name: Option<Seq<char>>) -> StoreView {
        match name {
            Some(name) => self.ensured(name),
            None => self,
        }
    }

    /// The store without the queue with the name.
    pub open spec fn removed(self, name: Seq<char>) -> StoreView {
        if self.holds(name) {
            StoreView { queues: self.queues.remove(self.position(name)) }
        } else {
            self
        }
    }

    /// The names of the queues, in the order in which they were created.
    pub open spec fn names(self) -> Seq<Seq<char>> {
        Seq::new(self.queues.len(), |i: int| self.queues[i].name())
    }
}

/// What a request to create a queue comes to: the configuration with its
/// defaults, where it meets the rule on types and subscribers and has a
/// name, and else the reason why it is refused. The rule is judged first:
/// a configuration that breaks it is refused for that, named or not.
pub open spec fn create_verdict(info: QueueInfoView) -> Result<QueueInfoView, QueueError> {
    let filled = info.filled();
    match filled.state() {
        QueueState::TypeError => Err(QueueError::TypeError),
        QueueState::SubscriberError => Err(QueueError::SubscriberError),
        QueueState::Valid => if filled.name is None {
            Err(QueueError::QueueNotFound)
        } else {
            Ok(filled)
        },
    }
}

impl StoreView {
    /// The store after a request to create a queue: where the request is
    /// accepted, the configuration is stored with its defaults, and the
    /// error queue that it names exists.
    pub open spec fn created(self, info: QueueInfoView) -> StoreView {
        match create_verdict(info) {
            Ok(filled) => self.put(filled).ensured_if(filled.error_queue()),
            Err(_) => self,
        }
    }
}

/// Storing a valid configuration keeps the store well-formed and leaves the
/// other queues as they are.
pub proof fn lemma_put(store: StoreView, info: QueueInfoView)
    requires
        store.wf(),
        info.name is Some,
        info.state() == QueueState::Valid,
    ensures
        store.put(info).wf(),
        store.put(info).holds(info.name->0),
        store.put(info).queue(info.name->0).info == info,
        store.holds(info.name->0) ==> store.put(info).queue(info.name->0) == store.queue(
            info.name->0,
        ).with_info(info),
        !store.holds(info.name->0) ==> store.put(info).queue(info.name->0)
            == QueueRecordView::fresh(info),
{
    let name = info.name->0;
    let after = store.put(info);
    if store.holds(name) {
        lemma_with_queue(store, name, store.queue(name).with_info(info));
    } else {
        let last = store.queues.len() as int;
        assert forall|i: int| 0 <= i < after.queues.len() implies (#[trigger] after.queues[i]).wf() by {
            if i < last {
                assert(store.queues[i].wf());
            }
        }
        assert forall|i: int, j: int| 0 <= i < j < after.queues.len() implies (
        #[trigger] after.queues[i]).info.name != (#[trigger] after.queues[j]).info.name by {
            if j < last {
                assert(store.queues[i].info.name != store.queues[j].info.name);
            } else {
                assert(!store.is_at(name, i));
            }
        }
        assert(after.is_at(name, last));
        lemma_queue_position(after, name, last);
    }
}

/// Making sure that a queue exists keeps the store well-formed.
pub proof fn lemma_ensured(store: StoreView, name: Seq<char>)
    requires
        store.wf(),
    ensures
        store.ensured(name).wf(),
        store.ensured(name).holds(name),
        store.holds(name) ==> store.ensured(name) == store,
        !store.holds(name) ==> store.ensured(name) == store.put(QueueInfoView::pull(name)),
{
    if !store.holds(name) {
        lemma_put(store, QueueInfoView::pull(name));
    }
}

/// Taking a queue out keeps the store well-formed; the store no longer
/// holds a queue with that name.
pub proof fn lemma_removed(store: StoreView, name: Seq<char>)
    requires
        store.wf(),
        store.holds(name),
    ensures
        store.removed(name).wf(),
        !store.removed(name).holds(name),
{
    let p = store.position(name);
    let after = store.removed(name);
    assert(store.is_at(name, p));
    assert forall|i: int| 0 <= i < after.queues.len() implies (#[trigger] after.queues[i]).wf() by {
        if i < p {
            assert(store.queues[i].wf());
        } else {
            assert(store.queues[i + 1].wf());
        }
    }
    assert forall|i: int, j: int| 0 <= i < j < after.queues.len() implies (
    #[trigger] after.queues[i]).info.name != (#[trigger] after.queues[j]).info.name by {
        let a = if i < p { i } else { i + 1 };
        let b = if j < p { j } else { j + 1 };
        assert(store.queues[a].info.name != store.queues[b].info.name);
    }
    assert forall|i: int| !after.is_at(name, i) by {
        if 0 <= i < after.queues.len() {
            let a = if i < p { i } else { i + 1 };
            if a < p {
                assert(store.queues[a].info.name != store.queues[p].info.name);
            } else {
                assert(store.queues[p].info.name != store.queues[a].info.name);
            }
        }
    }
}

impl Store {
    fn put(&mut self, info: QueueInfo)
        requires
            old(self)@.wf(),
            info@.name is Some,
            info@.state() == QueueState::Valid,
        ensures
            final(self)@ == old(self)@.put(info@),
            final(self)@.wf(),
    {
        let found = match &info.name {
            Some(name) => self.find(name),
            None => None,
        };
        proof {
            lemma_put(self@, info@);
        }
        match found {
            Some(i) => {
                self.queues[i].info = info;
                assert(self@.queues =~= old(self)@.put(info@).queues);
            },
            None => {
                let record = QueueRecord { info, counter: 0, slots: Vec::new() };
                assert(record@ == QueueRecordView::fresh(info@)) by {
                    assert(record@.slots =~= Seq::empty());
                }
                self.queues.push(record);
                assert(self@.queues =~= old(self)@.put(info@).queues);
            },
        }
    }

    fn ensure(&mut self, name: &String)
        requires
            old(self)@.wf(),
        ensures
            final(self)@ == old(self)@.ensured(name@),
            final(self)@.wf(),
    {
        proof {
            lemma_ensured(self@, name@);
        }
        if self.find(name).is_none() {
            self.put(QueueInfo::new(name.clone()));
        }
    }
}

/// Creates a queue, or replaces the configuration of the queue that has
/// the name. The defaults are applied first; a configuration that breaks
/// the rule on types and subscribers, or one without a name, is refused
/// and changes nothing. A queue that exists keeps its messages. Where the
/// configuration names an error queue that does not exist, that queue is
/// created as a pull queue.
pub fn create_queue(store: &mut Store, queue_info: QueueInfo) -> (created: Result<
    QueueInfo,
    QueueError,
>)
    requires
        old(store)@.wf(),
    ensures
        final(store)@.wf(),
        final(store)@ == old(store)@.created(queue_info@),
        match created {
            Ok(info) => create_verdict(queue_info@) == Ok::<QueueInfoView, QueueError>(info@),
            Err(e) => create_verdict(queue_info@) == Err::<QueueInfoView, QueueError>(e),
        },
{
    let mut info = queue_info;
    info.fill_missed_fields();
    match info.state() {
        QueueState::TypeError => { return Err(QueueError::TypeError); },
        QueueState::SubscriberError => { return Err(QueueError::SubscriberError); },
        QueueState::Valid => {},
    }
    if info.name.is_none() {
        return Err(QueueError::QueueNotFound);
    }
    let stored = info.clone();
    let error_queue = match &info.push {
        Some(push) => clone_text(&push.error_queue),
        None => None,
    };
    store.put(info);
    match error_queue {
        Some(name) => { store.ensure(&name); },
        None => {},
    }
    Ok(stored)
}

impl QueueRecord {
    fn report(&self) -> (info: QueueInfo)
        ensures
            info@ == self@.report(),
    {
        let mut info = self.info.clone();
        info.size = Some(self.slots.len());
        info.total_messages = Some(self.counter);
        info
    }
}

/// The configuration of the queue with the name, together with the number
/// of messages that it holds and the number that it has ever received.
pub fn get_queue_info(store: &Store, queue_name: String) -> (found: Result<QueueInfo, QueueError>)
    requires
        store@.wf(),
    ensures
        match found {
            Ok(info) => store@.holds(queue_name@) && info@ == store@.queue(queue_name@).report(),
            Err(e) => !store@.holds(queue_name@) && e == QueueError::QueueNotFound,
        },
{
    match store.find(&queue_name) {
        Some(i) => Ok(store.queues[i].report()),
        None => Err(QueueError::QueueNotFound),
    }
}

/// The names of the queues, in the order in which they were created.
pub fn list_queues(store: &Store) -> (queues: Vec<QueueLite>)
    requires
        store@.wf(),
    ensures
        queues.len() == store@.queues.len(),
        forall|i: int| 0 <= i < queues.len() ==> (#[trigger] queues[i]).name@ == store@.names()[i],
{
    let mut queues: Vec<QueueLite> = Vec::new();
    let mut i: usize = 0;
    while i < store.queues.len()
        invariant
            store@.wf(),
            i <= store.queues.len(),
            store.queues.len() == store@.queues.len(),
            queues.len() == i,
            forall|k: int| 0 <= k < i ==> (#[trigger] queues[k]).name@ == store@.names()[k],
        decreases store.queues.len() - i,
    {
        assert(store@.queues[i as int].wf());
        let name = match &store.queues[i].info.name {
            Some(name) => name.clone(),
            None => String::new(),
        };
        queues.push(QueueLite { name });
        i = i + 1;
    }
    queues
}

/// Deletes the queue with the name: its configuration, its counter and
/// every message it holds. Deleting is idempotent: it succeeds whether or
/// not there was such a queue, and afterwards there is none.
pub fn delete(store: &mut Store, queue_name: String) -> (deleted: Result<bool, QueueError>)
    requires
        old(store)@.wf(),
    ensures
        final(store)@.wf(),
        final(store)@ == old(store)@.removed(queue_name@),
        !final(store)@.holds(queue_name@),
        !old(store)@.holds(queue_name@) ==> final(store)@ == old(store)@,
        deleted == Ok::<bool, QueueError>(true),
{
    match store.find(&queue_name) {
        Some(i) => {
            proof {
                lemma_removed(store@, queue_name@);
            }
            let _ = store.queues.remove(i);
            assert(store@.queues =~= old(store)@.removed(queue_name@).queues);
        },
        None => {},
    }
    Ok(true)
}

impl StoreView {
    /// Whether a configuration can take the place of the one that is
    /// stored under its name: there is a queue of that name and type, and
    /// the configuration meets the rule on types and subscribers.
    pub open spec fn accepts(self, info: QueueInfoView) -> bool {
        &&& info.name is Some
        &&& self.holds(info.name->0)
        &&& info.state() == QueueState::Valid
        &&& info.queue_type == self.queue(info.name->0).info.queue_type
    }

    /// The store with the configuration in the place of the one that is
    /// stored under its name, where it can take that place.
    pub open spec fn updated(self, info: QueueInfoView) -> StoreView {
        if self.accepts(info) {
            self.with_queue(info.name->0, self.queue(info.name->0).with_info(info))
        } else {
            self
        }
    }

    /// Whether the subscribers of the queue with the name can be changed:
    /// `true` for a push queue, `false` for a pull queue, an error where
    /// there is no such queue.
    pub open spec fn subscription(self, name: Seq<char>) -> Result<bool, QueueError> {
        if !self.holds(name) {
            Err(QueueError::QueueNotFound)
        } else {
            Ok(self.queue(name).is_push())
        }
    }

    /// The subscribers of the push queue with the name.
    pub open spec fn subscribers(self, name: Seq<char>) -> Seq<SubscriberView>
        recommends
            self.subscription(name) == Ok::<bool, QueueError>(true),
    {
        self.queue(name).info.subscribers()
    }

    /// The store in which the push queue with the name has other
    /// subscribers. A pull queue, or no queue, changes nothing.
    pub open spec fn with_subscribers(self, name: Seq<char>, subscribers: Seq<SubscriberView>) -> StoreView {
        if self.subscription(name) == Ok::<bool, QueueError>(true) {
            self.with_queue(
                name,
                self.queue(name).with_info(self.queue(name).info.with_subscribers(subscribers)),
            )
        } else {
            self
        }
    }

    /// The store after a patch of the queue with the name: where the
    /// patch is accepted, the merged configuration is stored, and the
    /// error queue that the patch names exists.
    pub open spec fn patched(self, name: Seq<char>, patch: QueueInfoView) -> StoreView {
        if !self.holds(name) {
            self
        } else {
            match self.queue(name).info.patched(patch) {
                Ok(info) => self.with_queue(name, self.queue(name).with_info(info)).ensured_if(
                    patch.error_queue(),
                ),
                Err(_) => self,
            }
        }
    }
}

/// A valid configuration of the same name and type can take the place of
/// the one that a queue has.
pub proof fn lemma_with_info(store: StoreView, name: Seq<char>, info: QueueInfoView)
    requires
        store.wf(),
        store.holds(name),
        info.name == Some(name),
        info.state() == QueueState::Valid,
    ensures
        store.with_queue(name, store.queue(name).with_info(info)).wf(),
        store.with_queue(name, store.queue(name).with_info(info)).holds(name),
        store.with_queue(name, store.queue(name).with_info(info)).queue(name) == store.queue(
            name,
        ).with_info(info),
{
    assert(store.is_at(name, store.position(name)));
    lemma_with_queue(store, name, store.queue(name).with_info(info));
}

impl QueueRecord {
    fn set_info(&mut self, info: QueueInfo)
        ensures
            final(self)@ == old(self)@.with_info(info@),
    {
        self.info = info;
    }

    fn set_subscribers(&mut self, subscribers: Vec<QueueSubscriber>)
        requires
            old(self)@.info.push is Some,
        ensures
            final(self)@ == old(self)@.with_info(
                old(self)@.info.with_subscribers(subscribers.deep_view()),
            ),
    {
        match &mut self.info.push {
            Some(push) => { push.subscribers = Some(subscribers); },
            None => {},
        }
    }
}

/// Stores a configuration in the place of the one that the queue of its
/// name has, and says whether it did. It does so where there is a queue of
/// that name and type and the configuration meets the rule on types and
/// subscribers.
pub fn update_queue_info(store: &mut Store, queue_info: QueueInfo) -> (updated: bool)
    requires
        old(store)@.wf(),
    ensures
        final(store)@.wf(),
        final(store)@ == old(store)@.updated(queue_info@),
        updated == old(store)@.accepts(queue_info@),
{
    let mut info = queue_info;
    let qi = match &info.name {
        Some(name) => match store.find(name) {
            Some(qi) => qi,
            None => { return false; },
        },
        None => { return false; },
    };
    match info.state() {
        QueueState::Valid => {},
        _ => { return false; },
    }
    let same_type = match info.queue_type {
        Some(wanted) => match store.queues[qi].info.queue_type {
            Some(own) => wanted == own,
            None => false,
        },
        None => false,
    };
    if !same_type {
        return false;
    }
    proof {
        lemma_with_info(store@, info@.name->0, info@);
    }
    store.queues[qi].set_info(info);
    assert(store@.queues =~= old(store)@.updated(queue_info@).queues);
    true
}

/// Gives the push queue with the name other subscribers, all at once. The
/// caller brings at least one. A pull queue is left as it is.
pub fn replace_subscribers(
    store: &mut Store,
    queue_name: String,
    new_subscribers: Vec<QueueSubscriber>,
) -> (replaced: Result<bool, QueueError>)
    requires
        old(store)@.wf(),
        new_subscribers.len() > 0,
    ensures
        final(store)@.wf(),
        final(store)@ == old(store)@.with_subscribers(queue_name@, new_subscribers.deep_view()),
        replaced == old(store)@.subscription(queue_name@),
{
    let qi = match store.find(&queue_name) {
        Some(qi) => qi,
        None => { return Err(QueueError::QueueNotFound); },
    };
    if !store.queues[qi].is_push() {
        return Ok(false);
    }
    proof {
        let before = store@;
        assert(before.is_at(queue_name@, qi as int));
        assert(before.queue(queue_name@).wf());
        lemma_with_info(
            before,
            queue_name@,
            before.queue(queue_name@).info.with_subscribers(new_subscribers.deep_view()),
        );
    }
    store.queues[qi].set_subscribers(new_subscribers);
    assert(store@.queues =~= old(store)@.with_subscribers(
        queue_name@,
        new_subscribers.deep_view(),
    ).queues);
    Ok(true)
}

/// Merges subscribers into those of the push queue with the name: a
/// subscriber whose name is there takes the place of the one that has it,
/// a new one goes to the end, and of several with one name the last stays.
/// A pull queue is left as it is.
pub fn update_subscribers(
    store: &mut Store,
    queue_name: String,
    new_subscribers: Vec<QueueSubscriber>,
) -> (updated: Result<bool, QueueError>)
    requires
        old(store)@.wf(),
    ensures
        final(store)@.wf(),
        updated == old(store)@.subscription(queue_name@),
        final(store)@ == old(store)@.with_subscribers(
            queue_name@,
            merged(old(store)@.subscribers(queue_name@), new_subscribers.deep_view()),
        ),
{
    let qi = match store.find(&queue_name) {
        Some(qi) => qi,
        None => { return Err(QueueError::QueueNotFound); },
    };
    if !store.queues[qi].is_push() {
        return Ok(false);
    }
    assert(store@.queue(queue_name@).wf());
    let all = match &store.queues[qi].info.push {
        Some(push) => match &push.subscribers {
            Some(current) => merge_subscribers(current, &new_subscribers),
            None => new_subscribers,
        },
        None => new_subscribers,
    };
    proof {
        crate::subscribers::lemma_merged_keeps(
            old(store)@.subscribers(queue_name@),
            new_subscribers.deep_view(),
        );
    }
    replace_subscribers(store, queue_name, all)
}

/// Takes the subscribers that the targets name out of the push queue with
/// the name, and says whether it did. Where none would be left, nothing is
/// taken out: a push queue never is without a subscriber. A pull queue is
/// left as it is.
pub fn delete_subscribers(
    store: &mut Store,
    queue_name: String,
    subscribers_for_delete: Vec<QueueSubscriber>,
) -> (deleted: Result<bool, QueueError>)
    requires
        old(store)@.wf(),
    ensures
        final(store)@.wf(),
        match old(store)@.subscription(queue_name@) {
            Ok(true) => {
                let left = without(
                    old(store)@.subscribers(queue_name@),
                    subscribers_for_delete.deep_view(),
                );
                if left.len() == 0 {
                    deleted == Ok::<bool, QueueError>(false) && final(store)@ == old(store)@
                } else {
                    deleted == Ok::<bool, QueueError>(true) && final(store)@
                        == old(store)@.with_subscribers(queue_name@, left)
                }
            },
            verdict => deleted == verdict && final(store)@ == old(store)@,
        },
{
    let qi = match store.find(&queue_name) {
        Some(qi) => qi,
        None => { return Err(QueueError::QueueNotFound); },
    };
    if !store.queues[qi].is_push() {
        return Ok(false);
    }
    assert(store@.queue(queue_name@).wf());
    let left = match &store.queues[qi].info.push {
        Some(push) => match &push.subscribers {
            Some(current) => remove_subscribers(current, &subscribers_for_delete),
            None => Vec::new(),
        },
        None => Vec::new(),
    };
    if left.len() == 0 {
        return Ok(false);
    }
    replace_subscribers(store, queue_name, left)
}

/// Patches the configuration of the queue with the name: every field that
/// is present in the patch takes the place of the stored one. The type of
/// a queue cannot change, and a push queue cannot lose all its
/// subscribers: such a patch is refused and changes nothing. Where the
/// patch names an error queue that does not exist, that queue is created
/// as a pull queue.
pub fn patch_queue_info(store: &mut Store, queue_name: String, queue_info_patch: QueueInfo) -> (patched:
    Result<QueueInfo, QueueError>)
    requires
        old(store)@.wf(),
    ensures
        final(store)@.wf(),
        final(store)@ == old(store)@.patched(queue_name@, queue_info_patch@),
        match patched {
            Ok(info) => old(store)@.holds(queue_name@) && old(store)@.queue(
                queue_name@,
            ).info.patched(queue_info_patch@) == Ok::<QueueInfoView, QueueError>(info@),
            Err(e) => if old(store)@.holds(queue_name@) {
                old(store)@.queue(queue_name@).info.patched(queue_info_patch@) == Err::<
                    QueueInfoView,
                    QueueError,
                >(e)
            } else {
                e == QueueError::QueueNotFound
            },
        },
{
    let qi = match store.find(&queue_name) {
        Some(qi) => qi,
        None => { return Err(QueueError::QueueNotFound); },
    };
    let info = match store.queues[qi].info.merge_patch(&queue_info_patch) {
        Ok(info) => info,
        Err(e) => { return Err(e); },
    };
    let stored = info.clone();
    proof {
        let before = store@;
        assert(before.queue(queue_name@).wf());
        lemma_patch_keeps_valid(before.queue(queue_name@).info, queue_info_patch@);
        lemma_with_info(before, queue_name@, info@);
    }
    store.queues[qi].set_info(info);
    assert(store@.queues =~= old(store)@.with_queue(
        queue_name@,
        old(store)@.queue(queue_name@).with_info(info@),
    ).queues);
    match &queue_info_patch.push {
        Some(push) => match &push.error_queue {
            Some(name) => { store.ensure(name); },
            None => {},
        },
        None => {},
    }
    Ok(stored)
}

/// What the store reports of the queue with the name: its configuration
/// and its counts.
pub fn get_queue(store: &Store, queue_name: &String) -> (found: Result<Queue, QueueError>)
    requires
        store@.wf(),
    ensures
        match found {
            Ok(queue) => {
                &&& store@.holds(queue_name@)
                &&& queue.name.deep_view() == Some(queue_name@)
                &&& queue.value.deep_view() == Some(store@.queue(queue_name@).info)
                &&& queue.size == Some(store@.queue(queue_name@).slots.len() as usize)
                &&& queue.total_messages == Some(store@.queue(queue_name@).counter)
            },
            Err(e) => !store@.holds(queue_name@) && e == QueueError::QueueNotFound,
        },
{
    match store.find(queue_name) {
        Some(i) => Ok(
            Queue {
                name: Some(queue_name.clone()),
                value: Some(store.queues[i].info.clone()),
                size: Some(store.queues[i].slots.len()),
                total_messages: Some(store.queues[i].counter),
            },
        ),
        None => Err(QueueError::QueueNotFound),
    }
}

} // verus!
