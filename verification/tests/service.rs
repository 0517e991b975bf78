use rusted_iron::api::{delete_for_client, index as root, Reply};
use rusted_iron::message::{MessageDeleteBodyRequest, ReserveMessageParams};
use rusted_iron::mq::message::{enqueue_with_id, get_message as read_message};
use rusted_iron::mq::reserve::reserve_messages;
use rusted_iron::mq::queue::create_queue;
use rusted_iron::mq::Store;
use rusted_iron::queue_info::QueueInfo;

fn queue_one() -> (Store, String) {
    let mut store = Store::new();
    create_queue(&mut store, QueueInfo::default("1".to_string())).unwrap();
    let queue = "1".to_string();
    enqueue_with_id(&mut store, &queue, &"Bla".to_string(), "1".to_string()).unwrap();
    (store, queue)
}

#[test]
fn index() {
    assert_eq!(root().goto, "http://www.iron.io");
}

#[test]
fn get_message() {
    let (store, queue) = queue_one();
    let message = read_message(&store, &queue, &"1".to_string()).unwrap();
    assert_eq!(message.id, Some("1".to_string()));
    assert_eq!(message.body, "Bla");
}

#[test]
fn delete_message_by_id() {
    let (mut store, queue) = queue_one();
    let request = MessageDeleteBodyRequest { id: "1".to_string(), reservation_id: None };
    let deleted = delete_for_client(&mut store, &queue, &request);
    assert_eq!(deleted, Ok(true));
    assert_eq!(Reply::Deleted.http_status(), 200);
    assert_eq!(Reply::Deleted.to_text(), "Deleted");
}

#[test]
fn reserve_message() {
    let (mut store, queue) = queue_one();
    let params = ReserveMessageParams { n: 1, delete: None };
    let reserved = reserve_messages(&mut store, &queue, &params);
    assert!(reserved.is_ok());
    assert_eq!(reserved.unwrap().len(), 1);
}
