//! The push delivery engine: what to do next for a message of a push
//! queue, given what its subscribers have answered so far.
//!
//! A delivery runs in rounds, one for each attempt. In a round the
//! subscribers are posted to in their order. A unicast queue stops at the
//! first subscriber that accepts the message; a multicast queue posts to
//! all of them, and the answer of the last one decides whether the round
//! succeeded. After a round that failed the engine sleeps and tries again,
//! and after the last one it forwards the message to the error queue.
//!
//! The engine itself neither posts nor sleeps: it says what is to be done,
//! and is told what came of it.

use vstd::prelude::*;
use crate::error::QueueError;
use crate::message::{Message, MessageState, MessageView, PushMessage, PushMessageView};
use crate::mq::status::record_push_status;
use crate::mq::Store;
use crate::queue_info::{
    PushStatus, PushStatusView, QueueSubscriber, QueueType, SubscriberView, RETRIES,
    RETRIES_DELAY,
};

verus! {

/// What decides the course of a delivery: the number of attempts, the
/// seconds between them, the number of subscribers, whether the first
/// success ends a round, and whether there is an error queue.
#[derive(Clone, Copy, Debug, PartialEq, Eq, Structural)]
pub struct Schedule {
    pub retries: u32,
    pub delay: u32,
    pub subscribers: usize,
    pub unicast: bool,
    pub dead_letter: bool,
}

/// Where a delivery stands.
#[derive(Clone, Copy, Debug, PartialEq, Eq, Structural)]
pub enum Delivery {
    /// The answer of a subscriber is awaited.
    Posting { attempt: u32, subscriber: usize },
    /// The round of the attempt has failed, and the next is awaited.
    Sleeping { attempt: u32 },
    /// Nothing is left to do.
    Finished,
}

/// What is to be done for a delivery.
#[derive(Clone, Copy, Debug, PartialEq, Eq, Structural)]
pub enum DeliveryAction {
    /// Post the message to the subscriber at this place.
    Post { subscriber: usize, attempt: u32 },
    /// Wait for this many seconds.
    Sleep { seconds: u32 },
    /// Hand the message to the error queue; the delivery has ended.
    DeadLetter,
    /// The delivery has ended.
    Stop,
}

/// Whether an answer says that the subscriber has accepted the message: a
/// status from 200 to 299. No answer at all is a failure.
pub open spec fn accepted(response: Option<u16>) -> bool {
    match response {
        Some(status) => 200 <= status < 300,
        None => false,
    }
}

/// Whether an answer says that the subscriber has accepted the message.
pub fn is_accepted(response: Option<u16>) -> (ok: bool)
    ensures
        ok == accepted(response),
{
    match response {
        Some(status) => 200 <= status && status < 300,
        None => false,
    }
}

impl Schedule {
    /// What follows a round that failed: after the last attempt the
    /// message goes to the error queue, if there is one, and the delivery
    /// ends; before that, the engine sleeps.
    pub open spec fn after_failure(self, attempt: u32) -> (Delivery, DeliveryAction) {
        if attempt >= self.retries {
            (
                Delivery::Finished,
                if self.dead_letter {
                    DeliveryAction::DeadLetter
                } else {
                    DeliveryAction::Stop
                },
            )
        } else {
            (Delivery::Sleeping { attempt }, DeliveryAction::Sleep { seconds: self.delay })
        }
    }

    /// How a round begins: with a post to the first subscriber. A round
    /// without subscribers has failed at once.
    pub open spec fn round(self, attempt: u32) -> (Delivery, DeliveryAction) {
        if self.subscribers == 0 {
            self.after_failure(attempt)
        } else {
            (
                Delivery::Posting { attempt, subscriber: 0 },
                DeliveryAction::Post { subscriber: 0, attempt },
            )
        }
    }

    /// How a delivery begins: with the first round, or, where no attempt
    /// is allowed, not at all.
    pub open spec fn first(self) -> (Delivery, DeliveryAction) {
        if self.retries == 0 {
            (Delivery::Finished, DeliveryAction::Stop)
        } else {
            self.round(1)
        }
    }

    /// What follows the answer of a subscriber, or the end of a sleep.
    pub open spec fn next(self, state: Delivery, response: Option<u16>) -> (
        Delivery,
        DeliveryAction,
    ) {
        match state {
            Delivery::Posting { attempt, subscriber } => {
                if accepted(response) && self.unicast {
                    (Delivery::Finished, DeliveryAction::Stop)
                } else if subscriber < self.subscribers && subscriber + 1 < self.subscribers {
                    (
                        Delivery::Posting { attempt, subscriber: (subscriber + 1) as usize },
                        DeliveryAction::Post { subscriber: (subscriber + 1) as usize, attempt },
                    )
                } else if accepted(response) {
                    (Delivery::Finished, DeliveryAction::Stop)
                } else {
                    self.after_failure(attempt)
                }
            },
            Delivery::Sleeping { attempt } => {
                if attempt < self.retries {
                    self.round((attempt + 1) as u32)
                } else {
                    (Delivery::Finished, DeliveryAction::Stop)
                }
            },
            Delivery::Finished => (Delivery::Finished, DeliveryAction::Stop),
        }
    }

    fn fail(&self, attempt: u32) -> (step: (Delivery, DeliveryAction))
        ensures
            step == self.after_failure(attempt),
    {
        if attempt >= self.retries {
            if self.dead_letter {
                (Delivery::Finished, DeliveryAction::DeadLetter)
            } else {
                (Delivery::Finished, DeliveryAction::Stop)
            }
        } else {
            (Delivery::Sleeping { attempt }, DeliveryAction::Sleep { seconds: self.delay })
        }
    }

    fn begin(&self, attempt: u32) -> (step: (Delivery, DeliveryAction))
        ensures
            step == self.round(attempt),
    {
        if self.subscribers == 0 {
            self.fail(attempt)
        } else {
            (
                Delivery::Posting { attempt, subscriber: 0 },
                DeliveryAction::Post { subscriber: 0, attempt },
            )
        }
    }

    /// Begins a delivery: says where it stands and what is to be done
    /// first.
    pub fn start(&self) -> (step: (Delivery, DeliveryAction))
        ensures
            step == self.first(),
    {
        if self.retries == 0 {
            (Delivery::Finished, DeliveryAction::Stop)
        } else {
            self.begin(1)
        }
    }

    /// Takes the answer to the last post, or the end of the last sleep,
    /// and says where the delivery stands now and what is to be done
    /// next. After a sleep the answer is not looked at.
    pub fn advance(&self, state: Delivery, response: Option<u16>) -> (step: (
        Delivery,
        DeliveryAction,
    ))
        ensures
            step == self.next(state, response),
    {
        match state {
            Delivery::Posting { attempt, subscriber } => {
                let ok = is_accepted(response);
                if ok && self.unicast {
                    (Delivery::Finished, DeliveryAction::Stop)
                } else if subscriber < self.subscribers && subscriber + 1 < self.subscribers {
                    (
                        Delivery::Posting { attempt, subscriber: subscriber + 1 },
                        DeliveryAction::Post { subscriber: subscriber + 1, attempt },
                    )
                } else if ok {
                    (Delivery::Finished, DeliveryAction::Stop)
                } else {
                    self.fail(attempt)
                }
            },
            Delivery::Sleeping { attempt } => {
                if attempt < self.retries {
                    self.begin(attempt + 1)
                } else {
                    (Delivery::Finished, DeliveryAction::Stop)
                }
            },
            Delivery::Finished => (Delivery::Finished, DeliveryAction::Stop),
        }
    }

    /// Whether the engine is in the state and has asked for the action in
    /// the course of a delivery that has not ended.
    pub open spec fn awaits(self, state: Delivery, action: DeliveryAction) -> bool {
        match state {
            Delivery::Posting { attempt, subscriber } => {
                &&& 1 <= attempt <= self.retries
                &&& subscriber < self.subscribers
                &&& action == DeliveryAction::Post { subscriber, attempt }
            },
            Delivery::Sleeping { attempt } => {
                &&& 1 <= attempt < self.retries
                &&& action == DeliveryAction::Sleep { seconds: self.delay }
            },
            Delivery::Finished => false,
        }
    }

    /// The attempts that are left after the one of a state.
    pub open spec fn attempts_left(self, state: Delivery) -> int {
        match state {
            Delivery::Posting { attempt, .. } => self.retries - attempt,
            Delivery::Sleeping { attempt } => self.retries - attempt,
            Delivery::Finished => 0,
        }
    }

    /// The subscribers that are left in the round of a state, the one that
    /// is awaited included.
    pub open spec fn posts_left(self, state: Delivery) -> int {
        match state {
            Delivery::Posting { subscriber, .. } => self.subscribers - subscriber,
            _ => 0,
        }
    }

    /// Everything that the engine asks for from a point of a delivery on,
    /// when each subscriber answers each attempt as `respond` says.
    pub open spec fn trace(
        self,
        state: Delivery,
        action: DeliveryAction,
        respond: spec_fn(u32, usize) -> Option<u16>,
    ) -> Seq<DeliveryAction>
        decreases self.attempts_left(state), self.posts_left(state),
    {
        if !self.awaits(state, action) {
            seq![action]
        } else {
            let response = match action {
                DeliveryAction::Post { subscriber, attempt } => respond(attempt, subscriber),
                _ => None,
            };
            let step = self.next(state, response);
            seq![action] + self.trace(step.0, step.1, respond)
        }
    }

    /// Everything that the engine asks for in a whole delivery.
    pub open spec fn delivery(self, respond: spec_fn(u32, usize) -> Option<u16>) -> Seq<
        DeliveryAction,
    > {
        self.trace(self.first().0, self.first().1, respond)
    }
}

impl Schedule {
    /// Whether a state and an action belong together: the action is
    /// awaited in the state, or the delivery has ended with it.
    pub open spec fn coherent(self, state: Delivery, action: DeliveryAction) -> bool {
        ||| self.awaits(state, action)
        ||| (state == Delivery::Finished && action == DeliveryAction::Stop)
        ||| (state == Delivery::Finished && action == DeliveryAction::DeadLetter
            && self.dead_letter)
    }
}

/// A delivery begins with a state and an action that belong together, and
/// every step leads to such a pair again.
pub proof fn lemma_steps_are_coherent(
    schedule: Schedule,
    state: Delivery,
    action: DeliveryAction,
    response: Option<u16>,
)
    ensures
        schedule.coherent(schedule.first().0, schedule.first().1),
        schedule.awaits(state, action) ==> schedule.coherent(
            schedule.next(state, response).0,
            schedule.next(state, response).1,
        ),
{
}

/// In a unicast queue the first subscriber that accepts the message ends
/// the delivery: whatever the engine has asked for up to a post that was
/// accepted, all that it asks for after it is to stop. No other subscriber
/// is posted to in that attempt, and there is no further attempt.
pub proof fn unicast_stops_at_first_success(
    schedule: Schedule,
    state: Delivery,
    action: DeliveryAction,
    respond: spec_fn(u32, usize) -> Option<u16>,
    i: int,
)
    requires
        schedule.unicast,
        schedule.coherent(state, action),
        0 <= i < schedule.trace(state, action, respond).len(),
        schedule.trace(state, action, respond)[i] is Post,
        accepted(
            respond(
                schedule.trace(state, action, respond)[i]->Post_attempt,
                schedule.trace(state, action, respond)[i]->Post_subscriber,
            ),
        ),
    ensures
        schedule.trace(state, action, respond).len() == i + 2,
        schedule.trace(state, action, respond)[i + 1] == DeliveryAction::Stop,
    decreases schedule.attempts_left(state), schedule.posts_left(state),
{
    let response = match action {
        DeliveryAction::Post { subscriber, attempt } => respond(attempt, subscriber),
        _ => None,
    };
    let step = schedule.next(state, response);
    let rest = schedule.trace(step.0, step.1, respond);
    assert(schedule.awaits(state, action));
    assert(schedule.trace(state, action, respond) =~= seq![action] + rest);
    lemma_steps_are_coherent(schedule, state, action, response);
    if i == 0 {
        assert(step == (Delivery::Finished, DeliveryAction::Stop));
        assert(rest =~= seq![DeliveryAction::Stop]);
    } else {
        assert(rest[i - 1] == schedule.trace(state, action, respond)[i]);
        unicast_stops_at_first_success(schedule, step.0, step.1, respond, i - 1);
    }
}

/// A message goes to the error queue at most once, and only at the very
/// end of its delivery; where the queue has no error queue, it never goes
/// there.
pub proof fn dead_letter_comes_last(
    schedule: Schedule,
    state: Delivery,
    action: DeliveryAction,
    respond: spec_fn(u32, usize) -> Option<u16>,
    i: int,
)
    requires
        schedule.coherent(state, action),
        0 <= i < schedule.trace(state, action, respond).len(),
        schedule.trace(state, action, respond)[i] == DeliveryAction::DeadLetter,
    ensures
        i == schedule.trace(state, action, respond).len() - 1,
        schedule.dead_letter,
    decreases schedule.attempts_left(state), schedule.posts_left(state),
{
    if schedule.awaits(state, action) {
        let response = match action {
            DeliveryAction::Post { subscriber, attempt } => respond(attempt, subscriber),
            _ => None,
        };
        let step = schedule.next(state, response);
        let rest = schedule.trace(step.0, step.1, respond);
        assert(schedule.trace(state, action, respond) =~= seq![action] + rest);
        lemma_steps_are_coherent(schedule, state, action, response);
        assert(i > 0);
        assert(rest[i - 1] == schedule.trace(state, action, respond)[i]);
        dead_letter_comes_last(schedule, step.0, step.1, respond, i - 1);
    }
}

/// Where no subscriber ever accepts the message, the delivery of a queue
/// with an error queue ends by handing the message to that queue.
pub proof fn lemma_failing_trace(
    schedule: Schedule,
    state: Delivery,
    action: DeliveryAction,
    respond: spec_fn(u32, usize) -> Option<u16>,
)
    requires
        schedule.dead_letter,
        schedule.awaits(state, action) || (state == Delivery::Finished && action
            == DeliveryAction::DeadLetter),
        forall|attempt: u32, subscriber: usize| !accepted(#[trigger] respond(attempt, subscriber)),
    ensures
        schedule.trace(state, action, respond).last() == DeliveryAction::DeadLetter,
    decreases schedule.attempts_left(state), schedule.posts_left(state),
{
    if schedule.awaits(state, action) {
        let response = match action {
            DeliveryAction::Post { subscriber, attempt } => respond(attempt, subscriber),
            _ => None,
        };
        let step = schedule.next(state, response);
        let rest = schedule.trace(step.0, step.1, respond);
        assert(schedule.trace(state, action, respond) =~= seq![action] + rest);
        assert(!accepted(response));
        lemma_failing_trace(schedule, step.0, step.1, respond);
    }
}

/// A delivery to subscribers that never accept the message, for a queue
/// that allows at least one attempt and has an error queue, hands the
/// message to the error queue exactly once: as the last thing it does.
pub proof fn exhausted_delivery_dead_letters_once(
    schedule: Schedule,
    respond: spec_fn(u32, usize) -> Option<u16>,
)
    requires
        schedule.retries >= 1,
        schedule.dead_letter,
        forall|attempt: u32, subscriber: usize| !accepted(#[trigger] respond(attempt, subscriber)),
    ensures
        schedule.delivery(respond).last() == DeliveryAction::DeadLetter,
        forall|i: int|
            0 <= i < schedule.delivery(respond).len() - 1 ==> (#[trigger] schedule.delivery(
                respond,
            )[i]) != DeliveryAction::DeadLetter,
{
    let first = schedule.first();
    lemma_failing_trace(schedule, first.0, first.1, respond);
    assert forall|i: int| 0 <= i < schedule.delivery(respond).len() - 1 implies (
    #[trigger] schedule.delivery(respond)[i]) != DeliveryAction::DeadLetter by {
        if schedule.delivery(respond)[i] == DeliveryAction::DeadLetter {
            dead_letter_comes_last(schedule, first.0, first.1, respond, i);
        }
    }
}

/// In a multicast queue every subscriber is posted to in every round,
/// whatever the others have answered, and the answer of the last one
/// decides whether the round has succeeded.
pub proof fn multicast_posts_to_all(
    schedule: Schedule,
    attempt: u32,
    subscriber: usize,
    response: Option<u16>,
)
    requires
        !schedule.unicast,
        subscriber < schedule.subscribers,
    ensures
        subscriber + 1 < schedule.subscribers ==> schedule.next(
            Delivery::Posting { attempt, subscriber },
            response,
        ) == (
            Delivery::Posting { attempt, subscriber: (subscriber + 1) as usize },
            DeliveryAction::Post { subscriber: (subscriber + 1) as usize, attempt },
        ),
        subscriber + 1 == schedule.subscribers && accepted(response) ==> schedule.next(
            Delivery::Posting { attempt, subscriber },
            response,
        ) == (Delivery::Finished, DeliveryAction::Stop),
        subscriber + 1 == schedule.subscribers && !accepted(response) ==> schedule.next(
            Delivery::Posting { attempt, subscriber },
            response,
        ) == schedule.after_failure(attempt),
{
}

/// The subscribers that a message is to be delivered to.
pub open spec fn recipients(pm: PushMessageView) -> Seq<SubscriberView> {
    match pm.queue_info.push {
        Some(push) => match push.subscribers {
            Some(subscribers) => subscribers,
            None => Seq::empty(),
        },
        None => Seq::empty(),
    }
}

/// The number of attempts that the configuration of a queue allows for
/// each message.
pub open spec fn attempts(pm: PushMessageView) -> u32 {
    match pm.queue_info.push {
        Some(push) => match push.retries {
            Some(retries) => retries,
            None => RETRIES,
        },
        None => 0,
    }
}

/// The name of the error queue of a message, where its queue has one. An
/// empty name is none.
pub open spec fn error_queue(pm: PushMessageView) -> Option<Seq<char>> {
    match pm.queue_info.push {
        Some(push) => match push.error_queue {
            Some(name) => if name.len() > 0 {
                Some(name)
            } else {
                None
            },
            None => None,
        },
        None => None,
    }
}

/// The schedule of the delivery of a message, as the configuration of its
/// queue gives it. A queue without push settings gets no attempt.
pub open spec fn schedule_for(pm: PushMessageView) -> Schedule {
    Schedule {
        retries: attempts(pm),
        delay: match pm.queue_info.push {
            Some(push) => match push.retries_delay {
                Some(delay) => delay,
                None => RETRIES_DELAY,
            },
            None => 0,
        },
        subscribers: recipients(pm).len() as usize,
        unicast: pm.queue_info.queue_type == Some(QueueType::Unicast),
        dead_letter: error_queue(pm) is Some,
    }
}

/// The schedule of the delivery of a message.
pub fn schedule_of(pm: &PushMessage) -> (schedule: Schedule)
    ensures
        schedule == schedule_for(pm@),
{
    let unicast = match pm.queue_info.queue_type {
        Some(QueueType::Unicast) => true,
        _ => false,
    };
    match &pm.queue_info.push {
        Some(push) => {
            let subscribers = match &push.subscribers {
                Some(subscribers) => subscribers.len(),
                None => 0,
            };
            let dead_letter = match &push.error_queue {
                Some(name) => name.as_str().unicode_len() > 0,
                None => false,
            };
            Schedule {
                retries: match push.retries {
                    Some(retries) => retries,
                    None => RETRIES,
                },
                delay: match push.retries_delay {
                    Some(delay) => delay,
                    None => RETRIES_DELAY,
                },
                subscribers,
                unicast,
                dead_letter,
            }
        },
        None => Schedule { retries: 0, delay: 0, subscribers: 0, unicast, dead_letter: false },
    }
}

/// The headers of a post to a subscriber: the name of the engine, the
/// content type unless it is left out, and then the headers of the
/// subscriber, in their order.
pub open spec fn outbound_headers(headers: Seq<(Seq<char>, Seq<char>)>, skip_content_type: bool) -> Seq<
    (Seq<char>, Seq<char>),
> {
    let agent = seq![("User-Agent"@, "pusher/0.1.0"@)];
    if skip_content_type {
        agent + headers
    } else {
        agent + seq![("Content-Type"@, "application/json"@)] + headers
    }
}

/// The headers of a post to a subscriber.
pub fn construct_headers(headers: &Vec<(String, String)>, skip_content_type: bool) -> (out: Vec<
    (String, String),
>)
    ensures
        out.deep_view() == outbound_headers(headers.deep_view(), skip_content_type),
{
    let mut out: Vec<(String, String)> = Vec::new();
    out.push(("User-Agent".to_owned(), "pusher/0.1.0".to_owned()));
    if !skip_content_type {
        out.push(("Content-Type".to_owned(), "application/json".to_owned()));
    }
    let ghost head = out.deep_view();
    let mut i: usize = 0;
    while i < headers.len()
        invariant
            i <= headers.len(),
            out.len() == head.len() + i,
            forall|k: int| 0 <= k < head.len() ==> (#[trigger] out[k]).deep_view() == head[k],
            forall|k: int|
                head.len() <= k < out.len() ==> (#[trigger] out[k]).deep_view() == headers[k
                    - head.len()].deep_view(),
        decreases headers.len() - i,
    {
        out.push((headers[i].0.clone(), headers[i].1.clone()));
        i = i + 1;
    }
    assert(out.deep_view() =~= head + headers.deep_view());
    assert(head =~= outbound_headers(Seq::empty(), skip_content_type));
    out
}

/// The mathematical value of a [`PostRequest`].
pub struct PostRequestView {
    pub url: Seq<char>,
    pub headers: Seq<(Seq<char>, Seq<char>)>,
    pub body: Seq<char>,
}

/// What is posted to a subscriber, and where.
#[derive(Debug)]
pub struct PostRequest {
    pub url: String,
    pub headers: Vec<(String, String)>,
    pub body: String,
}

impl DeepView for PostRequest {
    type V = PostRequestView;

    open spec fn deep_view(&self) -> PostRequestView {
        PostRequestView {
            url: self.url@,
            headers: self.headers.deep_view(),
            body: self.body@,
        }
    }
}

impl View for PostRequest {
    type V = PostRequestView;

    open spec fn view(&self) -> PostRequestView {
        self.deep_view()
    }
}

/// The post that delivers a message to the subscriber at a place: to its
/// address, with its headers, the body of the message as content. There is
/// none where the place is no subscriber or the subscriber has no address.
pub open spec fn request_for(pm: PushMessageView, subscriber: int) -> Option<PostRequestView> {
    if 0 <= subscriber < recipients(pm).len() {
        let to = recipients(pm)[subscriber];
        match to.url {
            Some(url) => Some(
                PostRequestView {
                    url,
                    headers: outbound_headers(
                        match to.headers {
                            Some(headers) => headers,
                            None => Seq::empty(),
                        },
                        false,
                    ),
                    body: pm.msg.body,
                },
            ),
            None => None,
        }
    } else {
        None
    }
}

/// The subscriber at a place among those of a message.
fn recipient(pm: &PushMessage, subscriber: usize) -> (to: Option<&QueueSubscriber>)
    ensures
        match to {
            Some(to) => 0 <= subscriber < recipients(pm@).len() && to@ == recipients(
                pm@,
            )[subscriber as int],
            None => subscriber >= recipients(pm@).len(),
        },
{
    match &pm.queue_info.push {
        Some(push) => match &push.subscribers {
            Some(subscribers) => if subscriber < subscribers.len() {
                Some(&subscribers[subscriber])
            } else {
                None
            },
            None => None,
        },
        None => None,
    }
}

/// The post that delivers a message to the subscriber at a place.
pub fn post_request(pm: &PushMessage, subscriber: usize) -> (request: Option<PostRequest>)
    ensures
        request.deep_view() == request_for(pm@, subscriber as int),
{
    let to = match recipient(pm, subscriber) {
        Some(to) => to,
        None => { return None; },
    };
    let url = match &to.url {
        Some(url) => url.clone(),
        None => { return None; },
    };
    let headers = match &to.headers {
        Some(headers) => construct_headers(headers, false),
        None => {
            let none: Vec<(String, String)> = Vec::new();
            assert(none.deep_view() =~= Seq::empty());
            construct_headers(&none, false)
        },
    };
    Some(PostRequest { url, headers, body: pm.msg.body.clone() })
}

/// The attempts that are left after so many were made.
pub open spec fn remaining(retries: u32, attempt: u32) -> u32 {
    if attempt < retries {
        (retries - attempt) as u32
    } else {
        0
    }
}

/// The record of what a subscriber answered to an attempt: its name and
/// address, the number of the attempt, the attempts that are left, the
/// status that it answered with, if it answered, and the body that was
/// posted. There is none where the place is no subscriber or the
/// subscriber has no address.
pub open spec fn status_for(
    pm: PushMessageView,
    subscriber: int,
    attempt: u32,
    status: Option<u16>,
) -> Option<PushStatusView> {
    if 0 <= subscriber < recipients(pm).len() {
        let to = recipients(pm)[subscriber];
        match to.url {
            Some(url) => Some(
                PushStatusView {
                    subscriber_name: to.name,
                    retries_remaining: remaining(attempts(pm), attempt),
                    tries: attempt,
                    status_code: status,
                    url,
                    msg: Some(pm.msg.body),
                },
            ),
            None => None,
        }
    } else {
        None
    }
}

/// The record of what a subscriber answered to an attempt.
pub fn push_status(pm: &PushMessage, subscriber: usize, attempt: u32, status: Option<u16>) -> (record:
    Option<PushStatus>)
    ensures
        record.deep_view() == status_for(pm@, subscriber as int, attempt, status),
{
    let to = match recipient(pm, subscriber) {
        Some(to) => to,
        None => { return None; },
    };
    let url = match &to.url {
        Some(url) => url.clone(),
        None => { return None; },
    };
    let retries = schedule_of(pm).retries;
    Some(
        PushStatus {
            subscriber_name: to.name.clone(),
            retries_remaining: if attempt < retries {
                retries - attempt
            } else {
                0
            },
            tries: attempt,
            status_code: status,
            url,
            msg: Some(pm.msg.body.clone()),
        },
    )
}

/// Where the outcome of a delivery is recorded: in which queue and for
/// which message, or why it cannot be recorded.
pub open spec fn record_target(pm: PushMessageView) -> Result<(Seq<char>, Seq<char>), QueueError> {
    match pm.queue_info.name {
        None => Err(QueueError::QueueNotFound),
        Some(queue) => match pm.msg.source_msg_id {
            None => Err(QueueError::MessageNotFound),
            Some(id) => Ok((queue, id)),
        },
    }
}

/// Records what a subscriber answered to an attempt, for the message under
/// the id of its source, in place of what was recorded for the same
/// address before.
pub fn update_push_status(
    store: &mut Store,
    push_message: &PushMessage,
    subscriber: usize,
    attempt: u32,
    status: Option<u16>,
) -> (updated: Result<bool, QueueError>)
    requires
        old(store)@.wf(),
    ensures
        final(store)@.wf(),
        match (
            record_target(push_message@),
            status_for(push_message@, subscriber as int, attempt, status),
        ) {
            (Ok(target), Some(record)) => {
                &&& final(store)@ == old(store)@.recorded(target.0, target.1, record)
                &&& match old(store)@.locate(target.0, target.1) {
                    Ok(_) => updated == Ok::<bool, QueueError>(true),
                    Err(e) => updated == Err::<bool, QueueError>(e),
                }
            },
            (Ok(_), None) => {
                &&& final(store)@ == old(store)@
                &&& updated == Err::<bool, QueueError>(QueueError::SubscriberError)
            },
            (Err(e), _) => final(store)@ == old(store)@ && updated == Err::<bool, QueueError>(e),
        },
{
    let queue = match &push_message.queue_info.name {
        Some(queue) => queue,
        None => { return Err(QueueError::QueueNotFound); },
    };
    let id = match &push_message.msg.source_msg_id {
        Some(id) => id,
        None => { return Err(QueueError::MessageNotFound); },
    };
    match push_status(push_message, subscriber, attempt, status) {
        Some(record) => record_push_status(store, queue, id, record),
        None => Err(QueueError::SubscriberError),
    }
}

/// What goes to the error queue for a message that could not be
/// delivered: a new message with the body of the message that was
/// enqueued, and the name of the queue that takes it.
pub fn dead_letter(pm: &PushMessage) -> (letter: Option<(String, Message)>)
    ensures
        match letter {
            Some((queue, message)) => {
                &&& error_queue(pm@) == Some(queue@)
                &&& message@.body == pm@.msg.body
                &&& message@ == (MessageView {
                    body: pm@.msg.body,
                    delay: None,
                    id: None,
                    reserved_count: None,
                    reservation_id: None,
                    source_msg_id: None,
                    state: Some(MessageState::Unreserved),
                })
            },
            None => error_queue(pm@) is None,
        },
{
    match &pm.queue_info.push {
        Some(push) => match &push.error_queue {
            Some(name) => if name.as_str().unicode_len() > 0 {
                Some((name.clone(), Message::with_body(pm.msg.body.as_str())))
            } else {
                None
            },
            None => None,
        },
        None => None,
    }
}

} // verus!
