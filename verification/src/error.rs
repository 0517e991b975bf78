//! The failures that the broker reports to its callers.

use vstd::prelude::*;

verus! {

/// Why an operation on a queue or on a message was refused.
#[derive(Clone, Copy, Debug, PartialEq, Eq, Structural)]
pub enum QueueError {
    /// The configuration has no type, or its type contradicts its push
    /// settings.
    TypeError,
    /// The configuration is that of a push queue without a subscriber.
    SubscriberError,
    /// No queue has the name.
    QueueNotFound,
    /// The queue holds no message with the id.
    MessageNotFound,
    /// The token presented is not the one under which the message is
    /// reserved.
    OwnershipError,
    /// The store could not take the change: no fresh id could be had for
    /// it within the number of attempts allowed.
    StoreConflict,
    /// The sequence counter of the queue has reached its last value.
    SequenceExhausted,
}

impl QueueError {
    /// Whether the error reports a configuration that breaks the rule on
    /// queue types and subscribers.
    pub open spec fn is_configuration(self) -> bool {
        self == QueueError::TypeError || self == QueueError::SubscriberError
    }

    /// Whether the error reports a missing queue or message.
    pub open spec fn is_not_found(self) -> bool {
        self == QueueError::QueueNotFound || self == QueueError::MessageNotFound
    }

    /// The sentence that tells a client what went wrong.
    pub fn to_text(&self) -> (text: String)
        ensures
            text@ == self.text(),
    {
        match self {
            QueueError::TypeError => "Queue type cannot be changed".to_owned(),
            QueueError::SubscriberError => "Push queues must have at least one subscriber".to_owned(),
            QueueError::QueueNotFound => "Queue not found".to_owned(),
            QueueError::MessageNotFound => "Message not found".to_owned(),
            QueueError::OwnershipError => "A reservation_id is required".to_owned(),
            QueueError::StoreConflict => "Store conflict".to_owned(),
            QueueError::SequenceExhausted => "Sequence exhausted".to_owned(),
        }
    }

    pub open spec fn text(&self) -> Seq<char> {
        match self {
            QueueError::TypeError => "Queue type cannot be changed"@,
            QueueError::SubscriberError => "Push queues must have at least one subscriber"@,
            QueueError::QueueNotFound => "Queue not found"@,
            QueueError::MessageNotFound => "Message not found"@,
            QueueError::OwnershipError => "A reservation_id is required"@,
            QueueError::StoreConflict => "Store conflict"@,
            QueueError::SequenceExhausted => "Sequence exhausted"@,
        }
    }
}

} // verus!
