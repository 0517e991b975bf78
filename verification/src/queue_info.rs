//! Queue configuration: the type of a queue, its push settings and
//! subscribers, its alerts, and the rule that ties the type to the
//! subscribers.

use vstd::prelude::*;
use crate::error::QueueError;
use crate::message::clone_text;

verus! {

/// Seconds a reservation lasts when the configuration names none.
pub const MESSAGE_TIMEOUT: u32 = 60;

/// Seconds a message is kept when the configuration names none.
pub const MESSAGE_EXPIRATION: u32 = 604800;

/// Delivery attempts per message when the configuration names none.
pub const RETRIES: u32 = 3;

/// Seconds between delivery attempts when the configuration names none.
pub const RETRIES_DELAY: u32 = 60;

/// How the messages of a queue reach their consumers.
#[derive(Clone, Copy, Debug, PartialEq, Eq, Structural)]
pub enum QueueType {
    Pull,
    Unicast,
    Multicast,
}

/// The verdict of the configuration rule on a queue.
#[derive(Clone, Copy, Debug, PartialEq, Eq, Structural)]
pub enum QueueState {
    Valid,
    TypeError,
    SubscriberError,
}

/// The direction in which the size of a queue crosses the trigger of an
/// alert.
#[derive(Clone, Copy, Debug, PartialEq, Eq, Structural)]
pub enum Direction {
    Asc,
    Desc,
}

/// Whether an alert fires once at its trigger or at every multiple of it.
#[derive(Clone, Copy, Debug, PartialEq, Eq, Structural)]
pub enum AlertType {
    Fixed,
    Progressive,
}

/// The mathematical value of a [`QueueSubscriber`].
pub struct SubscriberView {
    pub name: Seq<char>,
    pub url: Option<Seq<char>>,
    pub headers: Option<Seq<(Seq<char>, Seq<char>)>>,
}

/// An HTTP endpoint that receives the messages of a push queue.
#[derive(Debug)]
pub struct QueueSubscriber {
    pub name: String,
    pub url: Option<String>,
    /// Header names and values, in the order in which they are sent.
    pub headers: Option<Vec<(String, String)>>,
}

impl DeepView for QueueSubscriber {
    type V = SubscriberView;

    open spec fn deep_view(&self) -> SubscriberView {
        SubscriberView {
            name: self.name@,
            url: self.url.deep_view(),
            headers: self.headers.deep_view(),
        }
    }
}

impl View for QueueSubscriber {
    type V = SubscriberView;

    open spec fn view(&self) -> SubscriberView {
        self.deep_view()
    }
}

/// Copies a list of headers.
pub fn clone_headers(headers: &Vec<(String, String)>) -> (copy: Vec<(String, String)>)
    ensures
        copy.deep_view() == headers.deep_view(),
{
    let mut copy: Vec<(String, String)> = Vec::new();
    let mut i: usize = 0;
    while i < headers.len()
        invariant
            i <= headers.len(),
            copy.len() == i,
            forall|k: int| 0 <= k < i ==> copy[k].deep_view() == headers[k].deep_view(),
        decreases headers.len() - i,
    {
        let name = headers[i].0.clone();
        let value = headers[i].1.clone();
        copy.push((name, value));
        i = i + 1;
    }
    assert(copy.deep_view() =~= headers.deep_view());
    copy
}

impl Clone for QueueSubscriber {
    fn clone(&self) -> (copy: Self)
        ensures
            copy@ == self@,
    {
        let headers = match &self.headers {
            Some(h) => Some(clone_headers(h)),
            None => None,
        };
        QueueSubscriber { name: self.name.clone(), url: clone_text(&self.url), headers }
    }
}

impl QueueSubscriber {
    /// A subscriber with a name and an address, and no headers.
    pub fn new(name: &str, url: &str) -> (subscriber: QueueSubscriber)
        ensures
            subscriber@ == (SubscriberView { name: name@, url: Some(url@), headers: None }),
    {
        QueueSubscriber { name: name.to_owned(), url: Some(url.to_owned()), headers: None }
    }

    /// Replaces the headers that are sent to this subscriber.
    pub fn headers(&mut self, headers: Vec<(String, String)>)
        ensures
            final(self)@ == (SubscriberView {
                headers: Some(headers.deep_view()),
                ..old(self)@
            }),
    {
        self.headers = Some(headers);
    }
}

/// Copies a list of subscribers.
pub fn clone_subscribers(subscribers: &Vec<QueueSubscriber>) -> (copy: Vec<QueueSubscriber>)
    ensures
        copy.deep_view() == subscribers.deep_view(),
{
    let mut copy: Vec<QueueSubscriber> = Vec::new();
    let mut i: usize = 0;
    while i < subscribers.len()
        invariant
            i <= subscribers.len(),
            copy.len() == i,
            forall|k: int| 0 <= k < i ==> copy[k]@ == subscribers[k]@,
        decreases subscribers.len() - i,
    {
        copy.push(subscribers[i].clone());
        i = i + 1;
    }
    assert(copy.deep_view() =~= subscribers.deep_view());
    copy
}

/// The mathematical value of a [`PushInfo`].
pub struct PushView {
    pub retries_delay: Option<u32>,
    pub retries: Option<u32>,
    pub subscribers: Option<Seq<SubscriberView>>,
    pub error_queue: Option<Seq<char>>,
}

/// The delivery settings of a push queue.
#[derive(Debug)]
pub struct PushInfo {
    pub retries_delay: Option<u32>,
    pub retries: Option<u32>,
    pub subscribers: Option<Vec<QueueSubscriber>>,
    pub error_queue: Option<String>,
}

impl DeepView for PushInfo {
    type V = PushView;

    open spec fn deep_view(&self) -> PushView {
        PushView {
            retries_delay: self.retries_delay,
            retries: self.retries,
            subscribers: self.subscribers.deep_view(),
            error_queue: self.error_queue.deep_view(),
        }
    }
}

impl View for PushInfo {
    type V = PushView;

    open spec fn view(&self) -> PushView {
        self.deep_view()
    }
}

impl Clone for PushInfo {
    fn clone(&self) -> (copy: Self)
        ensures
            copy@ == self@,
    {
        let subscribers = match &self.subscribers {
            Some(s) => Some(clone_subscribers(s)),
            None => None,
        };
        PushInfo {
            retries_delay: self.retries_delay,
            retries: self.retries,
            subscribers,
            error_queue: clone_text(&self.error_queue),
        }
    }
}

impl PushInfo {
    /// Sets the seconds between delivery attempts.
    pub fn retries_delay(&mut self, retries_delay: u32) -> (this: &mut PushInfo)
        ensures
            *this == (PushInfo { retries_delay: Some(retries_delay), ..*old(self) }),
            *final(self) == *final(this),
    {
        self.retries_delay = Some(retries_delay);
        self
    }

    /// Sets the number of delivery attempts per message.
    pub fn retries(&mut self, retries: u32) -> (this: &mut PushInfo)
        ensures
            *this == (PushInfo { retries: Some(retries), ..*old(self) }),
            *final(self) == *final(this),
    {
        self.retries = Some(retries);
        self
    }
}

/// The mathematical value of an [`Alert`].
pub struct AlertView {
    pub alert_type: AlertType,
    pub trigger: u32,
    pub queue: Seq<char>,
    pub snooze: Option<u32>,
    pub direction: Option<Direction>,
}

/// A threshold on the size of a queue, and the queue that is told when it
/// is crossed.
#[derive(Debug)]
pub struct Alert {
    pub alert_type: AlertType,
    pub trigger: u32,
    pub queue: String,
    pub snooze: Option<u32>,
    pub direction: Option<Direction>,
}

impl DeepView for Alert {
    type V = AlertView;

    open spec fn deep_view(&self) -> AlertView {
        AlertView {
            alert_type: self.alert_type,
            trigger: self.trigger,
            queue: self.queue@,
            snooze: self.snooze,
            direction: self.direction,
        }
    }
}

impl View for Alert {
    type V = AlertView;

    open spec fn view(&self) -> AlertView {
        self.deep_view()
    }
}

impl Clone for Alert {
    fn clone(&self) -> (copy: Self)
        ensures
            copy == *self,
    {
        Alert {
            alert_type: self.alert_type,
            trigger: self.trigger,
            queue: self.queue.clone(),
            snooze: self.snooze,
            direction: self.direction,
        }
    }
}

impl Alert {
    /// An alert without snooze time or direction.
    pub fn new(alert_type: AlertType, trigger: u32, queue: &str) -> (alert: Alert)
        ensures
            alert@ == (AlertView {
                alert_type,
                trigger,
                queue: queue@,
                snooze: None,
                direction: None,
            }),
    {
        Alert { alert_type, trigger, queue: queue.to_owned(), snooze: None, direction: None }
    }

    /// Sets the seconds for which the alert stays silent after it fired.
    pub fn snooze(&mut self, snooze: u32) -> (this: &mut Alert)
        ensures
            *this == (Alert { snooze: Some(snooze), ..*old(self) }),
            *final(self) == *final(this),
    {
        self.snooze = Some(snooze);
        self
    }

    /// Sets the direction in which the size has to cross the trigger.
    pub fn direction(&mut self, direction: Direction) -> (this: &mut Alert)
        ensures
            *this == (Alert { direction: Some(direction), ..*old(self) }),
            *final(self) == *final(this),
    {
        self.direction = Some(direction);
        self
    }
}

/// Copies a list of alerts.
pub fn clone_alerts(alerts: &Vec<Alert>) -> (copy: Vec<Alert>)
    ensures
        copy.deep_view() == alerts.deep_view(),
{
    let mut copy: Vec<Alert> = Vec::new();
    let mut i: usize = 0;
    while i < alerts.len()
        invariant
            i <= alerts.len(),
            copy.len() == i,
            forall|k: int| 0 <= k < i ==> copy[k] == alerts[k],
        decreases alerts.len() - i,
    {
        copy.push(alerts[i].clone());
        i = i + 1;
    }
    assert(copy.deep_view() =~= alerts.deep_view());
    copy
}

/// The mathematical value of a [`PushStatus`].
pub struct PushStatusView {
    pub subscriber_name: Seq<char>,
    pub retries_remaining: u32,
    pub tries: u32,
    pub status_code: Option<u16>,
    pub url: Seq<char>,
    pub msg: Option<Seq<char>>,
}

/// The outcome of the latest delivery of one message to one subscriber.
#[derive(Debug)]
pub struct PushStatus {
    pub subscriber_name: String,
    pub retries_remaining: u32,
    pub tries: u32,
    pub status_code: Option<u16>,
    pub url: String,
    pub msg: Option<String>,
}

impl DeepView for PushStatus {
    type V = PushStatusView;

    open spec fn deep_view(&self) -> PushStatusView {
        PushStatusView {
            subscriber_name: self.subscriber_name@,
            retries_remaining: self.retries_remaining,
            tries: self.tries,
            status_code: self.status_code,
            url: self.url@,
            msg: self.msg.deep_view(),
        }
    }
}

impl View for PushStatus {
    type V = PushStatusView;

    open spec fn view(&self) -> PushStatusView {
        self.deep_view()
    }
}

impl Clone for PushStatus {
    fn clone(&self) -> (copy: Self)
        ensures
            copy == *self,
    {
        PushStatus {
            subscriber_name: self.subscriber_name.clone(),
            retries_remaining: self.retries_remaining,
            tries: self.tries,
            status_code: self.status_code,
            url: self.url.clone(),
            msg: clone_text(&self.msg),
        }
    }
}

/// The mathematical value of a [`QueueInfo`].
pub struct QueueInfoView {
    pub name: Option<Seq<char>>,
    pub project_id: Option<Seq<char>>,
    pub message_timeout: Option<u32>,
    pub message_expiration: Option<u32>,
    pub size: Option<usize>,
    pub total_messages: Option<usize>,
    pub push: Option<PushView>,
    pub alerts: Option<Seq<AlertView>>,
    pub queue_type: Option<QueueType>,
}

impl PushView {
    /// The settings with the default number of attempts and the default
    /// delay where none is named.
    pub open spec fn filled(self) -> PushView {
        PushView {
            retries: if self.retries is None { Some(RETRIES) } else { self.retries },
            retries_delay: if self.retries_delay is None {
                Some(RETRIES_DELAY)
            } else {
                self.retries_delay
            },
            ..self
        }
    }
}

impl QueueInfoView {
    /// Whether the queue is a pull queue, where its type is known.
    pub open spec fn is_pull(self) -> Option<bool> {
        match self.queue_type {
            Some(t) => Some(t == QueueType::Pull),
            None => None,
        }
    }

    /// The configuration with every default applied: a queue without a
    /// type is a pull queue, and the push settings of a push queue get
    /// their defaults.
    pub open spec fn filled(self) -> QueueInfoView {
        let queue_type = if self.queue_type is None {
            Some(QueueType::Pull)
        } else {
            self.queue_type
        };
        QueueInfoView {
            message_timeout: if self.message_timeout is None {
                Some(MESSAGE_TIMEOUT)
            } else {
                self.message_timeout
            },
            message_expiration: if self.message_expiration is None {
                Some(MESSAGE_EXPIRATION)
            } else {
                self.message_expiration
            },
            queue_type,
            push: match self.push {
                Some(p) => if queue_type == Some(QueueType::Pull) {
                    Some(p)
                } else {
                    Some(p.filled())
                },
                None => None,
            },
            ..self
        }
    }

    /// The configuration rule: a queue has a type; a pull queue has no push
    /// settings; a push queue has push settings with at least one
    /// subscriber.
    pub open spec fn state(self) -> QueueState {
        match self.queue_type {
            None => QueueState::TypeError,
            Some(QueueType::Pull) => if self.push is Some {
                QueueState::TypeError
            } else {
                QueueState::Valid
            },
            Some(_) => match self.push {
                Some(p) => match p.subscribers {
                    Some(s) => if s.len() < 1 {
                        QueueState::SubscriberError
                    } else {
                        QueueState::Valid
                    },
                    None => QueueState::SubscriberError,
                },
                None => QueueState::SubscriberError,
            },
        }
    }
}

/// The configuration of a queue. A field that is `None` is absent: in a
/// stored configuration it stands for the default, in a patch for "leave
/// as it is".
#[derive(Debug)]
pub struct QueueInfo {
    pub name: Option<String>,
    pub project_id: Option<String>,
    pub message_timeout: Option<u32>,
    pub message_expiration: Option<u32>,
    pub size: Option<usize>,
    pub total_messages: Option<usize>,
    pub push: Option<PushInfo>,
    pub alerts: Option<Vec<Alert>>,
    pub queue_type: Option<QueueType>,
}

impl DeepView for QueueInfo {
    type V = QueueInfoView;

    open spec fn deep_view(&self) -> QueueInfoView {
        QueueInfoView {
            name: self.name.deep_view(),
            project_id: self.project_id.deep_view(),
            message_timeout: self.message_timeout,
            message_expiration: self.message_expiration,
            size: self.size,
            total_messages: self.total_messages,
            push: self.push.deep_view(),
            alerts: self.alerts.deep_view(),
            queue_type: self.queue_type,
        }
    }
}

impl View for QueueInfo {
    type V = QueueInfoView;

    open spec fn view(&self) -> QueueInfoView {
        self.deep_view()
    }
}

impl Clone for QueueInfo {
    fn clone(&self) -> (copy: Self)
        ensures
            copy@ == self@,
    {
        let push = match &self.push {
            Some(p) => Some(p.clone()),
            None => None,
        };
        let alerts = match &self.alerts {
            Some(a) => Some(clone_alerts(a)),
            None => None,
        };
        QueueInfo {
            name: clone_text(&self.name),
            project_id: clone_text(&self.project_id),
            message_timeout: self.message_timeout,
            message_expiration: self.message_expiration,
            size: self.size,
            total_messages: self.total_messages,
            push,
            alerts,
            queue_type: self.queue_type,
        }
    }
}

impl QueueInfo {
    /// The configuration of a pull queue in which nothing but the name and
    /// the type is set.
    pub fn new(name: String) -> (info: QueueInfo)
        ensures
            info@ == (QueueInfoView {
                name: Some(name@),
                project_id: None,
                message_timeout: None,
                message_expiration: None,
                size: None,
                total_messages: None,
                push: None,
                alerts: None,
                queue_type: Some(QueueType::Pull),
            }),
    {
        QueueInfo {
            name: Some(name),
            project_id: None,
            message_timeout: None,
            message_expiration: None,
            queue_type: Some(QueueType::Pull),
            size: None,
            total_messages: None,
            push: None,
            alerts: None,
        }
    }

    /// The configuration of a pull queue with the default timeout and
    /// expiration.
    pub fn default(name: String) -> (info: QueueInfo)
        ensures
            info@ == (QueueInfoView {
                name: Some(name@),
                project_id: None,
                message_timeout: Some(MESSAGE_TIMEOUT),
                message_expiration: Some(MESSAGE_EXPIRATION),
                size: None,
                total_messages: None,
                push: None,
                alerts: None,
                queue_type: Some(QueueType::Pull),
            }),
            info@.state() == QueueState::Valid,
    {
        QueueInfo {
            name: Some(name),
            project_id: None,
            message_timeout: Some(MESSAGE_TIMEOUT),
            message_expiration: Some(MESSAGE_EXPIRATION),
            queue_type: Some(QueueType::Pull),
            size: None,
            total_messages: None,
            push: None,
            alerts: None,
        }
    }

    /// Applies the defaults to every field that is absent.
    pub fn fill_missed_fields(&mut self)
        ensures
            final(self)@ == old(self)@.filled(),
    {
        if self.message_timeout.is_none() {
            self.message_timeout = Some(MESSAGE_TIMEOUT);
        }
        if self.message_expiration.is_none() {
            self.message_expiration = Some(MESSAGE_EXPIRATION);
        }
        if self.queue_type.is_none() {
            self.queue_type = Some(QueueType::Pull);
        }
        let is_push = match self.queue_type {
            Some(QueueType::Pull) => false,
            _ => true,
        };
        if is_push {
            match &mut self.push {
                Some(push) => {
                    if push.retries.is_none() {
                        push.retries = Some(RETRIES);
                    }
                    if push.retries_delay.is_none() {
                        push.retries_delay = Some(RETRIES_DELAY);
                    }
                },
                None => {},
            }
        }
    }

    /// Sets the name.
    pub fn name(&mut self, name: String) -> (this: &mut QueueInfo)
        ensures
            *this == (QueueInfo { name: Some(name), ..*old(self) }),
            *final(self) == *final(this),
    {
        self.name = Some(name);
        self
    }

    /// Sets the seconds a reservation lasts.
    pub fn message_timeout(&mut self, message_timeout: u32) -> (this: &mut QueueInfo)
        ensures
            *this == (QueueInfo { message_timeout: Some(message_timeout), ..*old(self) }),
            *final(self) == *final(this),
    {
        self.message_timeout = Some(message_timeout);
        self
    }

    /// Sets the seconds a message is kept.
    pub fn message_expiration(&mut self, message_expiration: u32) -> (this: &mut QueueInfo)
        ensures
            *this == (QueueInfo { message_expiration: Some(message_expiration), ..*old(self) }),
            *final(self) == *final(this),
    {
        self.message_expiration = Some(message_expiration);
        self
    }

    /// Sets the type of the queue.
    pub fn queue_type(&mut self, queue_type: QueueType) -> (this: &mut QueueInfo)
        ensures
            *this == (QueueInfo { queue_type: Some(queue_type), ..*old(self) }),
            *final(self) == *final(this),
    {
        self.queue_type = Some(queue_type);
        self
    }

    /// Sets the push settings.
    pub fn push(&mut self, push: PushInfo) -> (this: &mut QueueInfo)
        ensures
            *this == (QueueInfo { push: Some(push), ..*old(self) }),
            *final(self) == *final(this),
    {
        self.push = Some(push);
        self
    }

    /// Sets the alerts.
    pub fn alerts(&mut self, alerts: Vec<Alert>) -> (this: &mut QueueInfo)
        ensures
            *this == (QueueInfo { alerts: Some(alerts), ..*old(self) }),
            *final(self) == *final(this),
    {
        self.alerts = Some(alerts);
        self
    }

    /// Sets the number of messages that the queue holds.
    pub fn size(&mut self, size: usize) -> (this: &mut QueueInfo)
        ensures
            *this == (QueueInfo { size: Some(size), ..*old(self) }),
            *final(self) == *final(this),
    {
        self.size = Some(size);
        self
    }

    /// Sets the number of messages that the queue has ever received.
    pub fn total_messages(&mut self, total_messages: usize) -> (this: &mut QueueInfo)
        ensures
            *this == (QueueInfo { total_messages: Some(total_messages), ..*old(self) }),
            *final(self) == *final(this),
    {
        self.total_messages = Some(total_messages);
        self
    }

    /// Whether the queue is a pull queue; `None` where it has no type.
    pub fn is_pull(&mut self) -> (pull: Option<bool>)
        ensures
            pull == old(self)@.is_pull(),
            *final(self) == *old(self),
    {
        match self.queue_type {
            Some(QueueType::Pull) => Some(true),
            Some(_) => Some(false),
            None => None,
        }
    }

    /// Judges the configuration by the rule that ties the type of a queue
    /// to its subscribers.
    pub fn state(&mut self) -> (state: QueueState)
        ensures
            state == old(self)@.state(),
            *final(self) == *old(self),
    {
        match self.is_pull() {
            Some(is_pull) => {
                if is_pull {
                    if self.push.is_some() {
                        QueueState::TypeError
                    } else {
                        QueueState::Valid
                    }
                } else {
                    match &self.push {
                        Some(push) => match &push.subscribers {
                            Some(subscribers) => {
                                if subscribers.len() < 1 {
                                    QueueState::SubscriberError
                                } else {
                                    QueueState::Valid
                                }
                            },
                            None => QueueState::SubscriberError,
                        },
                        None => QueueState::SubscriberError,
                    }
                }
            },
            None => QueueState::TypeError,
        }
    }
}

/// The first of two optional values that is present.
pub open spec fn or_else<T>(first: Option<T>, second: Option<T>) -> Option<T> {
    if first is Some {
        first
    } else {
        second
    }
}

impl PushView {
    /// The settings with every field of the patch that is present in place
    /// of their own.
    pub open spec fn merged(self, patch: PushView) -> PushView {
        PushView {
            retries_delay: or_else(patch.retries_delay, self.retries_delay),
            retries: or_else(patch.retries, self.retries),
            subscribers: or_else(patch.subscribers, self.subscribers),
            error_queue: or_else(patch.error_queue, self.error_queue),
        }
    }
}

impl QueueInfoView {
    /// Why a patch is refused, if it is: the type of a queue cannot change,
    /// so a pull queue takes no push settings and no queue takes another
    /// type; and a push queue cannot lose all its subscribers.
    pub open spec fn refusal(self, patch: QueueInfoView) -> Option<QueueError> {
        if self.queue_type == Some(QueueType::Pull) && patch.push is Some {
            Some(QueueError::TypeError)
        } else if patch.queue_type is Some && patch.queue_type != self.queue_type {
            Some(QueueError::TypeError)
        } else if patch.push is Some && patch.push->0.subscribers is Some
            && patch.push->0.subscribers->0.len() == 0 {
            Some(QueueError::SubscriberError)
        } else {
            None
        }
    }

    /// The configuration with every field of the patch that is present in
    /// place of its own. The name, the type and the counts stay.
    pub open spec fn merged(self, patch: QueueInfoView) -> QueueInfoView {
        QueueInfoView {
            project_id: or_else(patch.project_id, self.project_id),
            message_timeout: or_else(patch.message_timeout, self.message_timeout),
            message_expiration: or_else(patch.message_expiration, self.message_expiration),
            alerts: or_else(patch.alerts, self.alerts),
            push: match (self.push, patch.push) {
                (Some(own), Some(other)) => Some(own.merged(other)),
                _ => self.push,
            },
            ..self
        }
    }

    /// What a patch comes to: the merged configuration, or the reason why
    /// the patch is refused.
    pub open spec fn patched(self, patch: QueueInfoView) -> Result<QueueInfoView, QueueError> {
        match self.refusal(patch) {
            Some(e) => Err(e),
            None => Ok(self.merged(patch)),
        }
    }
}

/// A patch that is accepted turns a valid configuration into a valid one,
/// of the same name and type.
pub proof fn lemma_patch_keeps_valid(current: QueueInfoView, patch: QueueInfoView)
    requires
        current.state() == QueueState::Valid,
        current.patched(patch) is Ok,
    ensures
        current.patched(patch)->Ok_0.state() == QueueState::Valid,
        current.patched(patch)->Ok_0.name == current.name,
        current.patched(patch)->Ok_0.queue_type == current.queue_type,
{
}

impl PushInfo {
    /// The settings with every field of the patch that is present in place
    /// of their own.
    pub fn merge(&self, patch: &PushInfo) -> (merged: PushInfo)
        ensures
            merged@ == self@.merged(patch@),
    {
        let subscribers = match &patch.subscribers {
            Some(s) => Some(clone_subscribers(s)),
            None => match &self.subscribers {
                Some(s) => Some(clone_subscribers(s)),
                None => None,
            },
        };
        PushInfo {
            retries_delay: if patch.retries_delay.is_some() {
                patch.retries_delay
            } else {
                self.retries_delay
            },
            retries: if patch.retries.is_some() {
                patch.retries
            } else {
                self.retries
            },
            subscribers,
            error_queue: if patch.error_queue.is_some() {
                clone_text(&patch.error_queue)
            } else {
                clone_text(&self.error_queue)
            },
        }
    }
}

impl QueueInfo {
    /// Applies a patch: every field that is present in the patch takes the
    /// place of the field of this configuration. A patch that would change
    /// the type of the queue, or leave a push queue without subscribers,
    /// is refused.
    pub fn merge_patch(&self, patch: &QueueInfo) -> (merged: Result<QueueInfo, QueueError>)
        ensures
            match merged {
                Ok(info) => self@.patched(patch@) == Ok::<QueueInfoView, QueueError>(info@),
                Err(e) => self@.patched(patch@) == Err::<QueueInfoView, QueueError>(e),
            },
    {
        let is_pull = match self.queue_type {
            Some(QueueType::Pull) => true,
            _ => false,
        };
        if is_pull && patch.push.is_some() {
            return Err(QueueError::TypeError);
        }
        let type_changes = match patch.queue_type {
            Some(wanted) => match self.queue_type {
                Some(own) => wanted != own,
                None => true,
            },
            None => false,
        };
        if type_changes {
            return Err(QueueError::TypeError);
        }
        let loses_subscribers = match &patch.push {
            Some(push) => match &push.subscribers {
                Some(subscribers) => subscribers.len() == 0,
                None => false,
            },
            None => false,
        };
        if loses_subscribers {
            return Err(QueueError::SubscriberError);
        }
        let push = match &self.push {
            Some(own) => match &patch.push {
                Some(other) => Some(own.merge(other)),
                None => Some(own.clone()),
            },
            None => None,
        };
        let alerts = match &patch.alerts {
            Some(a) => Some(clone_alerts(a)),
            None => match &self.alerts {
                Some(a) => Some(clone_alerts(a)),
                None => None,
            },
        };
        Ok(
            QueueInfo {
                name: clone_text(&self.name),
                project_id: if patch.project_id.is_some() {
                    clone_text(&patch.project_id)
                } else {
                    clone_text(&self.project_id)
                },
                message_timeout: if patch.message_timeout.is_some() {
                    patch.message_timeout
                } else {
                    self.message_timeout
                },
                message_expiration: if patch.message_expiration.is_some() {
                    patch.message_expiration
                } else {
                    self.message_expiration
                },
                size: self.size,
                total_messages: self.total_messages,
                push,
                alerts,
                queue_type: self.queue_type,
            },
        )
    }
}

} // verus!
