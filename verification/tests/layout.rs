use rusted_iron::api::{
    index, peek_count, queue_deleted_reply, released_reply, subscribers_deleted_reply,
    subscribers_reply, Reply, MAXIMUM_NUMBER_TO_PEEK,
};
use rusted_iron::error::QueueError;
use rusted_iron::message::{Message, MessageState};
use rusted_iron::mq::message::{enqueue_with_id, get_message};
use rusted_iron::mq::reserve::reserve_with_tokens;
use rusted_iron::mq::status::record_push_status;
use rusted_iron::mq::queue::create_queue;
use rusted_iron::mq::snapshot::{
    is_wf, merge_sides, tries_again, QueueSnapshot, StoredMessage, STORE_ATTEMPTS,
};
use rusted_iron::mq::Store;
use rusted_iron::queue::{
    get_channel_key, get_delivery_key, get_email_key, get_message_counter_key, get_message_key,
    get_reserved_key, get_unreserved_key, get_user_key, Queue, CHANNEL_PATTERN, PROJECTS_KEY,
    QUEUES_KEY, QUEUES_ORDER_KEY,
};
use rusted_iron::queue_info::{PushStatus, QueueInfo};

#[test]
fn keys_follow_the_layout() {
    let queue = "jobs".to_string();
    let id = "5b1f".to_string();
    assert_eq!(Queue::get_queue_key(&queue), "queue:jobs");
    assert_eq!(get_message_counter_key(&queue), "queue:jobs:msg:counter");
    assert_eq!(get_unreserved_key(&queue), "queue:jobs:unreserved:msg");
    assert_eq!(get_reserved_key(&queue), "queue:jobs:reserved:msg");
    assert_eq!(get_message_key(&queue, &id), "queue:jobs:msg:5b1f");
    assert_eq!(get_channel_key(&queue), "queue:jobs:msg:channel");
    assert_eq!(Queue::get_queue_key(&"".to_string()), "queue:");
    assert_eq!(get_email_key(&"a@b.c".to_string()), "email:a@b.c");
    assert_eq!(get_user_key(&vec!["7".to_string(), "8".to_string()]), "user:7");
    assert_eq!(get_user_key(&vec![]), "user:000000000000000000000000");
    assert_eq!((QUEUES_KEY, PROJECTS_KEY), ("queues", "projects"));
    assert_eq!(CHANNEL_PATTERN, "queue:*:msg:channel");
    assert_eq!(QUEUES_ORDER_KEY, "queues:order");
    let empty = Queue::new();
    assert!(empty.name.is_none() && empty.value.is_none());
    assert!(empty.size.is_none() && empty.total_messages.is_none());
}

#[test]
fn a_delivery_key_holds_the_address_in_base64() {
    let key = get_delivery_key(
        &"jobs".to_string(),
        &"5b1f".to_string(),
        &"http://example.com/hook?a=1".to_string(),
    );
    assert_eq!(key, "queue:jobs:msg:5b1f:delivery:aHR0cDovL2V4YW1wbGUuY29tL2hvb2s/YT0x");
    let short = get_delivery_key(&"q".to_string(), &"m".to_string(), &"a".to_string());
    assert_eq!(short, "queue:q:msg:m:delivery:YQ==");
    let none = get_delivery_key(&"q".to_string(), &"m".to_string(), &"".to_string());
    assert_eq!(none, "queue:q:msg:m:delivery:");
}

#[test]
fn replies_and_errors_have_their_status_and_text() {
    assert_eq!(Reply::MessagesPut.http_status(), 201);
    assert_eq!(Reply::MessagesPut.to_text(), "Messages put on queue.");
    assert_eq!(Reply::Deleted.http_status(), 200);
    assert_eq!(Reply::Deleted.to_text(), "Deleted");
    assert_eq!(Reply::Cleared.to_text(), "Cleared");
    assert_eq!(Reply::Touched.to_text(), "Touched");
    assert_eq!(Reply::Released.to_text(), "Released");
    assert_eq!(Reply::QueueDeleted.to_text(), "Deleted.");
    assert_eq!(subscribers_reply(true), Reply::Updated);
    assert_eq!(subscribers_reply(false), Reply::NotUpdated);
    assert_eq!(Reply::Updated.to_text(), "Updated");
    assert_eq!(Reply::NotUpdated.to_text(), "Not Updated");

    assert_eq!(QueueError::TypeError.http_status(), 403);
    assert_eq!(QueueError::TypeError.to_text(), "Queue type cannot be changed");
    assert_eq!(QueueError::SubscriberError.http_status(), 400);
    assert_eq!(
        QueueError::SubscriberError.to_text(),
        "Push queues must have at least one subscriber"
    );
    assert_eq!(QueueError::QueueNotFound.http_status(), 404);
    assert_eq!(QueueError::QueueNotFound.to_text(), "Queue not found");
    assert_eq!(QueueError::MessageNotFound.http_status(), 404);
    assert_eq!(QueueError::MessageNotFound.to_text(), "Message not found");
    assert_eq!(QueueError::OwnershipError.http_status(), 400);
    assert_eq!(QueueError::OwnershipError.to_text(), "A reservation_id is required");
    assert_eq!(QueueError::StoreConflict.http_status(), 500);
    assert_eq!(QueueError::SequenceExhausted.http_status(), 500);

    assert_eq!(released_reply(true), Ok(Reply::Released));
    assert_eq!(released_reply(false), Err(QueueError::MessageNotFound));
    assert_eq!(queue_deleted_reply(true), Ok(Reply::QueueDeleted));
    assert_eq!(queue_deleted_reply(false), Err(QueueError::QueueNotFound));
    assert_eq!(subscribers_deleted_reply(true), Ok(Reply::Updated));
    assert_eq!(subscribers_deleted_reply(false), Err(QueueError::SubscriberError));

    assert_eq!(MAXIMUM_NUMBER_TO_PEEK, 1);
    assert_eq!(peek_count(None), 1);
    assert_eq!(peek_count(Some(4)), 4);
    assert_eq!(index().goto, "http://www.iron.io");
}

fn filled_store() -> Store {
    let mut store = Store::new();
    create_queue(&mut store, QueueInfo::default("jobs".to_string())).unwrap();
    create_queue(&mut store, QueueInfo::default("other".to_string())).unwrap();
    let queue = "jobs".to_string();
    for (body, id) in [("a", "1"), ("b", "2"), ("c", "3")] {
        enqueue_with_id(&mut store, &queue, &body.to_string(), id.to_string()).unwrap();
    }
    reserve_with_tokens(&mut store, &queue, vec!["t".to_string()], false).unwrap();
    let status = PushStatus {
        subscriber_name: "s".to_string(),
        retries_remaining: 1,
        tries: 2,
        status_code: Some(200),
        url: "http://s".to_string(),
        msg: Some("b".to_string()),
    };
    record_push_status(&mut store, &queue, &"2".to_string(), status).unwrap();
    store
}

#[test]
fn a_snapshot_shows_what_the_store_holds() {
    let store = filled_store();
    let queues = store.snapshot();
    assert_eq!(queues.len(), 2);
    assert_eq!(queues[0].info.name, Some("jobs".to_string()));
    assert_eq!(queues[0].counter, 3);
    let scores: Vec<usize> = queues[0].messages.iter().map(|m| m.score).collect();
    assert_eq!(scores, vec![0, 1, 2]);
    let sides: Vec<bool> = queues[0].messages.iter().map(|m| m.reserved).collect();
    assert_eq!(sides, vec![true, false, false]);
    assert_eq!(queues[0].messages[0].msg.reservation_id, Some("t".to_string()));
    assert_eq!(queues[0].messages[1].deliveries.len(), 1);
    assert_eq!(queues[0].messages[1].deliveries[0].tries, 2);
    assert_eq!(queues[1].info.name, Some("other".to_string()));
    assert!(queues[1].messages.is_empty());
    assert!(is_wf(&queues));
    assert!(queues[0].is_wf());
    assert!(queues[0].messages[0].is_wf());
}

#[test]
fn what_was_written_can_be_read_again() {
    let store = filled_store();
    let restored = Store::restore(store.snapshot()).unwrap();
    let again = restored.snapshot();
    assert_eq!(again.len(), 2);
    assert_eq!(again[0].counter, 3);
    let ids: Vec<Option<String>> = again[0].messages.iter().map(|m| m.msg.id.clone()).collect();
    assert_eq!(ids, vec![Some("1".to_string()), Some("2".to_string()), Some("3".to_string())]);
    let found = get_message(&restored, &"jobs".to_string(), &"1".to_string()).unwrap();
    assert_eq!(found.state, Some(MessageState::Reserved));
    assert_eq!(again[1].info.name, Some("other".to_string()));
    assert!(Store::restore(vec![]).unwrap().snapshot().is_empty());
}

fn stored(score: usize, id: &str) -> StoredMessage {
    let mut msg = Message::with_body("b");
    msg.id = Some(id.to_string());
    StoredMessage { score, reserved: false, msg, deliveries: vec![] }
}

fn queue(name: &str, counter: usize, messages: Vec<StoredMessage>) -> QueueSnapshot {
    QueueSnapshot { info: QueueInfo::default(name.to_string()), counter, messages }
}

#[test]
fn what_is_not_well_formed_is_not_restored() {
    assert!(Store::restore(vec![queue("a", 2, vec![stored(0, "x"), stored(1, "y")])]).is_some());
    assert!(Store::restore(vec![queue("a", 0, vec![]), queue("a", 0, vec![])]).is_none());
    assert!(Store::restore(vec![queue("a", 2, vec![stored(1, "x"), stored(0, "y")])]).is_none());
    assert!(Store::restore(vec![queue("a", 2, vec![stored(1, "x"), stored(1, "y")])]).is_none());
    assert!(Store::restore(vec![queue("a", 2, vec![stored(0, "x"), stored(1, "x")])]).is_none());
    assert!(Store::restore(vec![queue("a", 1, vec![stored(0, "x"), stored(1, "y")])]).is_none());

    let mut nameless = queue("a", 0, vec![]);
    nameless.info.name = None;
    assert!(!nameless.is_wf());
    let mut untyped = queue("a", 0, vec![]);
    untyped.info.queue_type = None;
    assert!(!untyped.is_wf());

    let mut no_id = stored(0, "x");
    no_id.msg.id = None;
    assert!(!no_id.is_wf());
    let mut both = stored(0, "x");
    both.reserved = true;
    assert!(!both.is_wf());
    both.msg.state = Some(MessageState::Reserved);
    assert!(!both.is_wf());
    both.msg.reservation_id = Some("t".to_string());
    assert!(both.is_wf());
    let mut stray = stored(0, "x");
    stray.msg.reservation_id = Some("t".to_string());
    assert!(!stray.is_wf());
    let status = |url: &str| PushStatus {
        subscriber_name: "s".to_string(),
        retries_remaining: 0,
        tries: 1,
        status_code: None,
        url: url.to_string(),
        msg: None,
    };
    let mut twice = stored(0, "x");
    twice.deliveries = vec![status("u"), status("v"), status("u")];
    assert!(!twice.is_wf());
    twice.deliveries = vec![status("u"), status("v")];
    assert!(twice.is_wf());
}

#[test]
fn the_two_sides_are_merged_by_sequence_number() {
    let side = |scores: &[usize], reserved: bool| -> Vec<StoredMessage> {
        scores
            .iter()
            .map(|score| {
                let mut message = stored(*score, &format!("m{}", score));
                message.reserved = reserved;
                message
            })
            .collect()
    };
    let scores = |list: &[StoredMessage]| -> Vec<(usize, bool)> {
        list.iter().map(|m| (m.score, m.reserved)).collect()
    };
    let all = merge_sides(side(&[1, 4, 5], false), side(&[0, 2, 3, 9], true));
    assert_eq!(
        scores(&all),
        vec![(0, true), (1, false), (2, true), (3, true), (4, false), (5, false), (9, true)]
    );
    assert_eq!(scores(&merge_sides(side(&[], false), side(&[2, 3], true))), vec![(2, true), (3, true)]);
    assert_eq!(scores(&merge_sides(side(&[7], false), side(&[], true))), vec![(7, false)]);
    assert_eq!(scores(&merge_sides(side(&[1], false), side(&[1], true))), vec![(1, false), (1, true)]);
    assert!(merge_sides(vec![], vec![]).is_empty());
}

#[test]
fn a_state_is_read_from_its_word() {
    assert_eq!(MessageState::from_text("reserved"), Some(MessageState::Reserved));
    assert_eq!(MessageState::from_text("unreserved"), Some(MessageState::Unreserved));
    assert_eq!(MessageState::from_text("Reserved"), None);
    assert_eq!(MessageState::from_text(""), None);
    for state in [MessageState::Reserved, MessageState::Unreserved] {
        assert_eq!(MessageState::from_text(&state.to_text()), Some(state));
    }
}

#[test]
fn a_change_is_tried_a_few_times() {
    assert_eq!(STORE_ATTEMPTS, 5);
    assert!(tries_again(0));
    assert!(tries_again(4));
    assert!(!tries_again(5));
    assert!(!tries_again(usize::MAX));
}
