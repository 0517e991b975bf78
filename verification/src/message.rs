//! Messages and the parameters of the operations that handle them.

use vstd::prelude::*;
use crate::queue_info::{QueueInfo, QueueInfoView};

verus! {

/// Whether a message is currently leased to a consumer.
#[derive(Clone, Copy, Debug, PartialEq, Eq, Structural)]
pub enum MessageState {
    Reserved,
    Unreserved,
}

impl MessageState {
    /// The lower-case word under which the state is stored.
    pub fn to_text(&self) -> (text: String)
        ensures
            text@ == self.text(),
    {
        match self {
            MessageState::Reserved => "reserved".to_owned(),
            MessageState::Unreserved => "unreserved".to_owned(),
        }
    }

    pub open spec fn text(&self) -> Seq<char> {
        match self {
            MessageState::Reserved => "reserved"@,
            MessageState::Unreserved => "unreserved"@,
        }
    }

    /// The state that a stored word stands for, if it is one of the two
    /// words.
    pub fn from_text(text: &str) -> (state: Option<MessageState>)
        ensures
            state == if text@ == "reserved"@ {
                Some(MessageState::Reserved)
            } else if text@ == "unreserved"@ {
                Some(MessageState::Unreserved)
            } else {
                None
            },
    {
        if same_text(text, "reserved") {
            Some(MessageState::Reserved)
        } else if same_text(text, "unreserved") {
            Some(MessageState::Unreserved)
        } else {
            None
        }
    }
}

/// The mathematical value of a [`Message`].
pub struct MessageView {
    pub body: Seq<char>,
    pub delay: Option<u32>,
    pub id: Option<Seq<char>>,
    pub reserved_count: Option<u32>,
    pub reservation_id: Option<Seq<char>>,
    pub source_msg_id: Option<Seq<char>>,
    pub state: Option<MessageState>,
}

/// A message as it is stored in a queue and handed to consumers.
#[derive(Debug)]
pub struct Message {
    pub body: String,
    pub delay: Option<u32>,
    pub id: Option<String>,
    pub reserved_count: Option<u32>,
    pub reservation_id: Option<String>,
    pub source_msg_id: Option<String>,
    pub state: Option<MessageState>,
}

impl DeepView for Message {
    type V = MessageView;

    open spec fn deep_view(&self) -> MessageView {
        MessageView {
            body: self.body@,
            delay: self.delay,
            id: self.id.deep_view(),
            reserved_count: self.reserved_count,
            reservation_id: self.reservation_id.deep_view(),
            source_msg_id: self.source_msg_id.deep_view(),
            state: self.state,
        }
    }
}

impl View for Message {
    type V = MessageView;

    open spec fn view(&self) -> MessageView {
        self.deep_view()
    }
}

/// Whether two texts are the same.
pub fn same_text(one: &str, other: &str) -> (same: bool)
    ensures
        same == (one@ == other@),
{
    let a = one.to_owned();
    let b = other.to_owned();
    a == b
}

/// Copies an optional string.
pub fn clone_text(text: &Option<String>) -> (copy: Option<String>)
    ensures
        copy == *text,
{
    match text {
        Some(t) => Some(t.clone()),
        None => None,
    }
}

impl Clone for Message {
    fn clone(&self) -> (copy: Self)
        ensures
            copy == *self,
    {
        Message {
            body: self.body.clone(),
            delay: self.delay,
            id: clone_text(&self.id),
            reserved_count: self.reserved_count,
            reservation_id: clone_text(&self.reservation_id),
            source_msg_id: clone_text(&self.source_msg_id),
            state: self.state,
        }
    }
}

impl Message {
    /// A new unreserved message with a delivery delay.
    pub fn new(body: &str, delay: u32) -> (msg: Message)
        ensures
            msg@ == (MessageView {
                body: body@,
                delay: Some(delay),
                id: None,
                reserved_count: None,
                reservation_id: None,
                source_msg_id: None,
                state: Some(MessageState::Unreserved),
            }),
    {
        Message {
            body: body.to_owned(),
            delay: Some(delay),
            id: None,
            reserved_count: None,
            reservation_id: None,
            source_msg_id: None,
            state: Some(MessageState::Unreserved),
        }
    }

    /// A new unreserved message that holds nothing but its body.
    pub fn with_body(body: &str) -> (msg: Message)
        ensures
            msg@ == (MessageView {
                body: body@,
                delay: None,
                id: None,
                reserved_count: None,
                reservation_id: None,
                source_msg_id: None,
                state: Some(MessageState::Unreserved),
            }),
    {
        Message {
            body: body.to_owned(),
            delay: None,
            id: None,
            reserved_count: None,
            reservation_id: None,
            source_msg_id: None,
            state: Some(MessageState::Unreserved),
        }
    }
}

impl Message {
    /// Whether the message says of itself that it is reserved; `None`
    /// where it carries no state.
    pub fn is_reserved(&self) -> (reserved: Option<bool>)
        ensures
            reserved == self@.is_reserved(),
    {
        match self.state {
            Some(MessageState::Reserved) => Some(true),
            Some(MessageState::Unreserved) => Some(false),
            None => None,
        }
    }
}

impl MessageView {
    /// Whether the message says of itself that it is reserved.
    pub open spec fn is_reserved(self) -> Option<bool> {
        match self.state {
            Some(state) => Some(state == MessageState::Reserved),
            None => None,
        }
    }
}

/// A message as it travels to the subscribers of a push queue: the message
/// together with the configuration of its queue.
#[derive(Debug)]
pub struct PushMessage {
    pub queue_info: QueueInfo,
    pub msg: Message,
}

/// The mathematical value of a [`PushMessage`].
pub struct PushMessageView {
    pub queue_info: QueueInfoView,
    pub msg: MessageView,
}

impl DeepView for PushMessage {
    type V = PushMessageView;

    open spec fn deep_view(&self) -> PushMessageView {
        PushMessageView { queue_info: self.queue_info@, msg: self.msg@ }
    }
}

impl View for PushMessage {
    type V = PushMessageView;

    open spec fn view(&self) -> PushMessageView {
        self.deep_view()
    }
}

impl Clone for PushMessage {
    fn clone(&self) -> (copy: Self)
        ensures
            copy@ == self@,
    {
        PushMessage { queue_info: self.queue_info.clone(), msg: self.msg.clone() }
    }
}

/// How many messages a consumer asks for, and on what terms.
#[derive(Clone, Copy, Debug, PartialEq, Eq, Structural)]
pub struct ReservationConfig {
    pub n: u8,
    pub timeout: u32,
    pub wait: u32,
    pub delete: bool,
}

impl ReservationConfig {
    pub fn new(n: u8, timeout: u32, wait: u32, delete: bool) -> (config: ReservationConfig)
        ensures
            config == (ReservationConfig { n, timeout, wait, delete }),
    {
        ReservationConfig { n, timeout, wait, delete }
    }
}

/// The body of a request to reserve messages: how many, and whether they
/// are deleted as soon as they are handed out.
#[derive(Clone, Copy, Debug, PartialEq, Eq, Structural)]
pub struct ReserveMessageParams {
    pub n: i32,
    pub delete: Option<bool>,
}

/// One entry of a request to delete messages: the id of the message and
/// the token under which the client holds it.
#[derive(Debug)]
pub struct MessageDeleteBodyRequest {
    pub id: String,
    pub reservation_id: Option<String>,
}

impl Clone for MessageDeleteBodyRequest {
    fn clone(&self) -> (copy: Self)
        ensures
            copy == *self,
    {
        MessageDeleteBodyRequest {
            id: self.id.clone(),
            reservation_id: clone_text(&self.reservation_id),
        }
    }
}

/// Whether a request may delete a message: an unreserved message may be
/// deleted by anyone, a reserved one only under its token.
pub open spec fn may_delete(presented: Option<Seq<char>>, message: MessageView) -> bool {
    if message.is_reserved() == Some(true) {
        presented is Some && message.reservation_id == presented
    } else {
        true
    }
}

impl MessageDeleteBodyRequest {
    /// Whether the request may delete the message.
    pub fn is_valid_for(&self, message: &Message) -> (valid: bool)
        ensures
            valid == may_delete(self.reservation_id.deep_view(), message@),
    {
        let is_reserved = match message.is_reserved() {
            Some(is_reserved) => is_reserved,
            None => false,
        };
        if is_reserved {
            match &self.reservation_id {
                Some(presented) => match &message.reservation_id {
                    Some(held) => *presented == *held,
                    None => false,
                },
                None => false,
            }
        } else {
            true
        }
    }
}

} // verus!
