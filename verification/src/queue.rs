//! A queue as the store reports it, and the names under which the store
//! keeps what belongs to a queue.

use vstd::prelude::*;
use vstd::string::*;
use base64::Engine;
use crate::queue_info::QueueInfo;

verus! {

/// The key of the set of the names of all queues.
pub const QUEUES_KEY: &'static str = "queues";

/// The key of the list of the names of all queues, in the order in which
/// the queues were created.
pub const QUEUES_ORDER_KEY: &'static str = "queues:order";

/// The key of the set of the ids of all projects.
pub const PROJECTS_KEY: &'static str = "projects";

/// The pattern of the channels on which new messages are broadcast.
pub const CHANNEL_PATTERN: &'static str = "queue:*:msg:channel";

/// What the store reports of a queue.
#[derive(Debug)]
pub struct Queue {
    pub name: Option<String>,
    pub value: Option<QueueInfo>,
    pub size: Option<usize>,
    pub total_messages: Option<usize>,
}

/// The name of a queue, as it appears in a list of queues.
#[derive(Debug)]
pub struct QueueLite {
    pub name: String,
}

impl Queue {
    /// A report that says nothing yet.
    pub fn new() -> (queue: Queue)
        ensures
            queue.name is None,
            queue.value is None,
            queue.size is None,
            queue.total_messages is None,
    {
        Queue { name: None, value: None, size: None, total_messages: None }
    }

    /// The key of the configuration of a queue.
    pub fn get_queue_key(queue_id: &String) -> (key: String)
        ensures
            key@ == queue_key(queue_id@),
    {
        let mut key = String::from_str("queue:");
        key.append(queue_id.as_str());
        key
    }
}

/// The key of the configuration of a queue: `queue:` and the name.
pub open spec fn queue_key(name: Seq<char>) -> Seq<char> {
    "queue:"@ + name
}

/// The key of the sequence counter of a queue.
pub open spec fn counter_key(name: Seq<char>) -> Seq<char> {
    queue_key(name) + ":msg:counter"@
}

/// The key of the sorted set of the unreserved messages of a queue.
pub open spec fn unreserved_key(name: Seq<char>) -> Seq<char> {
    queue_key(name) + ":unreserved:msg"@
}

/// The key of the sorted set of the reserved messages of a queue.
pub open spec fn reserved_key(name: Seq<char>) -> Seq<char> {
    queue_key(name) + ":reserved:msg"@
}

/// The key of a message of a queue.
pub open spec fn message_key(name: Seq<char>, id: Seq<char>) -> Seq<char> {
    queue_key(name) + ":msg:"@ + id
}

/// The channel on which the new messages of a queue are broadcast.
pub open spec fn channel_key(name: Seq<char>) -> Seq<char> {
    queue_key(name) + ":msg:channel"@
}

/// What `base64`'s standard engine makes of the bytes of a text: their
/// encoding in the standard alphabet, with padding.
pub uninterp spec fn base64_text(text: Seq<char>) -> Seq<char>;

/// The key of the outcome of the deliveries of a message to the
/// subscriber with an address: the address is made part of the key in its
/// base64 encoding.
pub open spec fn delivery_key(name: Seq<char>, id: Seq<char>, url: Seq<char>) -> Seq<char> {
    message_key(name, id) + ":delivery:"@ + base64_text(url)
}

/// Calls `encode` of `base64::engine::general_purpose::STANDARD` on the
/// bytes of a text. The encoding depends on the bytes alone.
#[verifier::external_body]
fn base64_encode(text: &str) -> (encoded: String)
    ensures
        encoded@ == base64_text(text@),
{
    base64::engine::general_purpose::STANDARD.encode(text)
}

/// The key of the sequence counter of a queue.
pub fn get_message_counter_key(queue_id: &String) -> (key: String)
    ensures
        key@ == counter_key(queue_id@),
{
    let mut key = Queue::get_queue_key(queue_id);
    key.append(":msg:counter");
    key
}

/// The key of the sorted set of the unreserved messages of a queue.
pub fn get_unreserved_key(queue_id: &String) -> (key: String)
    ensures
        key@ == unreserved_key(queue_id@),
{
    let mut key = Queue::get_queue_key(queue_id);
    key.append(":unreserved:msg");
    key
}

/// The key of the sorted set of the reserved messages of a queue.
pub fn get_reserved_key(queue_id: &String) -> (key: String)
    ensures
        key@ == reserved_key(queue_id@),
{
    let mut key = Queue::get_queue_key(queue_id);
    key.append(":reserved:msg");
    key
}

/// The key of a message of a queue.
pub fn get_message_key(queue_id: &String, message_id: &String) -> (key: String)
    ensures
        key@ == message_key(queue_id@, message_id@),
{
    let mut key = Queue::get_queue_key(queue_id);
    key.append(":msg:");
    key.append(message_id.as_str());
    key
}

/// The channel on which the new messages of a queue are broadcast.
pub fn get_channel_key(queue_id: &String) -> (key: String)
    ensures
        key@ == channel_key(queue_id@),
{
    let mut key = Queue::get_queue_key(queue_id);
    key.append(":msg:channel");
    key
}

/// The key of the outcome of the deliveries of a message to the
/// subscriber with an address.
pub fn get_delivery_key(queue_id: &String, message_id: &String, url: &String) -> (key: String)
    ensures
        key@ == delivery_key(queue_id@, message_id@, url@),
{
    let mut key = get_message_key(queue_id, message_id);
    key.append(":delivery:");
    let encoded = base64_encode(url.as_str());
    key.append(encoded.as_str());
    key
}

/// The key under which the ids of the users with an email address are
/// kept.
pub fn get_email_key(email: &String) -> (key: String)
    ensures
        key@ == "email:"@ + email@,
{
    let mut key = String::from_str("email:");
    key.append(email.as_str());
    key
}

/// The key of the user to whom the first of the ids belongs. Where there
/// is no id, the key is that of a user that does not exist.
pub fn get_user_key(user_ids: &Vec<String>) -> (key: String)
    ensures
        key@ == "user:"@ + if user_ids.len() > 0 {
            user_ids[0]@
        } else {
            "000000000000000000000000"@
        },
{
    let mut key = String::from_str("user:");
    if user_ids.len() > 0 {
        key.append(user_ids[0].as_str());
    } else {
        key.append("000000000000000000000000");
    }
    key
}

} // verus!
