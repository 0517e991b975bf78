use rusted_iron::error::QueueError;
use rusted_iron::message::Message;
use rusted_iron::mq::message::push_message;
use rusted_iron::mq::reserve::peek_messages;
use rusted_iron::mq::queue::{
    create_queue, delete, delete_subscribers, get_queue, get_queue_info, list_queues,
    patch_queue_info, replace_subscribers, update_queue_info, update_subscribers,
};
use rusted_iron::mq::Store;
use rusted_iron::queue_info::{
    Alert, AlertType, Direction, PushInfo, QueueInfo, QueueState, QueueSubscriber, QueueType,
    MESSAGE_EXPIRATION, MESSAGE_TIMEOUT, RETRIES, RETRIES_DELAY,
};
use rusted_iron::subscribers::{find_named, is_named, merge_subscribers, remove_subscribers};

fn push_info(subscribers: Vec<QueueSubscriber>) -> PushInfo {
    PushInfo { retries_delay: None, retries: None, subscribers: Some(subscribers), error_queue: None }
}

fn push_queue(name: &str, queue_type: QueueType, subscribers: Vec<QueueSubscriber>) -> QueueInfo {
    let mut info = QueueInfo::new(name.to_string());
    info.queue_type(queue_type).push(push_info(subscribers));
    info
}

fn names(subscribers: &[QueueSubscriber]) -> Vec<String> {
    subscribers.iter().map(|s| s.name.clone()).collect()
}

fn stored_subscribers(store: &Store, queue: &str) -> Vec<QueueSubscriber> {
    get_queue_info(store, queue.to_string()).unwrap().push.unwrap().subscribers.unwrap()
}

#[test]
fn a_pull_queue_with_push_settings_is_a_type_error() {
    let mut store = Store::new();
    let mut info = QueueInfo::new("q".to_string());
    info.push(push_info(vec![QueueSubscriber::new("s", "http://s")]));
    assert_eq!(info.state() as u8, QueueState::TypeError as u8);
    assert_eq!(create_queue(&mut store, info).err(), Some(QueueError::TypeError));
    assert!(list_queues(&store).is_empty());
}

#[test]
fn a_push_queue_without_subscribers_is_a_subscriber_error() {
    let mut store = Store::new();
    let mut unicast = QueueInfo::new("q".to_string());
    unicast.queue_type(QueueType::Unicast);
    assert_eq!(create_queue(&mut store, unicast).err(), Some(QueueError::SubscriberError));
    let empty = push_queue("q", QueueType::Multicast, vec![]);
    assert_eq!(create_queue(&mut store, empty).err(), Some(QueueError::SubscriberError));
    let mut none = push_queue("q", QueueType::Unicast, vec![]);
    none.push.as_mut().unwrap().subscribers = None;
    assert_eq!(create_queue(&mut store, none).err(), Some(QueueError::SubscriberError));
    assert!(list_queues(&store).is_empty());
    assert_eq!(get_queue_info(&store, "q".to_string()).err(), Some(QueueError::QueueNotFound));
}

#[test]
fn state_judges_type_and_subscribers() {
    let mut pull = QueueInfo::default("q".to_string());
    assert_eq!(pull.state(), QueueState::Valid);
    assert_eq!(pull.is_pull(), Some(true));
    let mut untyped = QueueInfo::new("q".to_string());
    untyped.queue_type = None;
    assert_eq!(untyped.is_pull(), None);
    assert_eq!(untyped.state(), QueueState::TypeError);
    let mut multicast = push_queue("q", QueueType::Multicast, vec![QueueSubscriber::new("s", "u")]);
    assert_eq!(multicast.is_pull(), Some(false));
    assert_eq!(multicast.state(), QueueState::Valid);
    let mut empty = push_queue("q", QueueType::Unicast, vec![]);
    assert_eq!(empty.state(), QueueState::SubscriberError);
}

#[test]
fn defaults_are_applied_to_what_is_absent() {
    assert_eq!((MESSAGE_TIMEOUT, MESSAGE_EXPIRATION, RETRIES, RETRIES_DELAY), (60, 604800, 3, 60));
    let mut info = QueueInfo::new("q".to_string());
    info.queue_type = None;
    info.fill_missed_fields();
    assert_eq!(info.message_timeout, Some(60));
    assert_eq!(info.message_expiration, Some(604800));
    assert_eq!(info.queue_type, Some(QueueType::Pull));
    assert!(info.push.is_none());

    let mut push = push_queue("q", QueueType::Unicast, vec![QueueSubscriber::new("s", "u")]);
    push.message_timeout(5);
    push.push.as_mut().unwrap().retries(9);
    push.fill_missed_fields();
    assert_eq!(push.message_timeout, Some(5));
    assert_eq!(push.message_expiration, Some(604800));
    let settings = push.push.unwrap();
    assert_eq!(settings.retries, Some(9));
    assert_eq!(settings.retries_delay, Some(60));

    let mut odd = QueueInfo::new("q".to_string());
    odd.push(push_info(vec![]));
    odd.fill_missed_fields();
    assert_eq!(odd.push.unwrap().retries, None);

    let fresh = QueueInfo::default("d".to_string());
    assert_eq!(fresh.name, Some("d".to_string()));
    assert_eq!(fresh.message_timeout, Some(60));
    assert_eq!(fresh.message_expiration, Some(604800));
    assert_eq!(fresh.queue_type, Some(QueueType::Pull));
}

#[test]
fn builders_set_one_field_each() {
    let mut info = QueueInfo::new("q".to_string());
    info.name("r".to_string())
        .message_timeout(1)
        .message_expiration(2)
        .size(3)
        .total_messages(4)
        .queue_type(QueueType::Unicast)
        .alerts(vec![Alert::new(AlertType::Fixed, 10, "alerts")]);
    assert_eq!(info.name, Some("r".to_string()));
    assert_eq!(info.message_timeout, Some(1));
    assert_eq!(info.message_expiration, Some(2));
    assert_eq!(info.size, Some(3));
    assert_eq!(info.total_messages, Some(4));
    assert_eq!(info.queue_type, Some(QueueType::Unicast));
    assert_eq!(info.project_id, None);
    let alert = &info.alerts.as_ref().unwrap()[0];
    assert_eq!(alert.trigger, 10);
    assert_eq!(alert.queue, "alerts");
    assert_eq!(alert.alert_type, AlertType::Fixed);
    assert_eq!(alert.snooze, None);
    assert_eq!(alert.direction, None);

    let mut alert = Alert::new(AlertType::Progressive, 1, "a");
    alert.snooze(30).direction(Direction::Desc);
    assert_eq!(alert.snooze, Some(30));
    assert_eq!(alert.direction, Some(Direction::Desc));

    let mut push = push_info(vec![]);
    push.retries_delay(7).retries(8);
    assert_eq!((push.retries_delay, push.retries), (Some(7), Some(8)));

    let mut subscriber = QueueSubscriber::new("s", "http://s");
    assert_eq!(subscriber.name, "s");
    assert_eq!(subscriber.url, Some("http://s".to_string()));
    assert_eq!(subscriber.headers, None);
    subscriber.headers(vec![("X-A".to_string(), "1".to_string())]);
    assert_eq!(subscriber.headers, Some(vec![("X-A".to_string(), "1".to_string())]));
}

#[test]
fn create_stores_the_configuration_with_its_defaults() {
    let mut store = Store::new();
    let created = create_queue(&mut store, QueueInfo::new("jobs".to_string())).unwrap();
    assert_eq!(created.message_timeout, Some(60));
    assert_eq!(created.message_expiration, Some(604800));
    let info = get_queue_info(&store, "jobs".to_string()).unwrap();
    assert_eq!(info.name, Some("jobs".to_string()));
    assert_eq!(info.queue_type, Some(QueueType::Pull));
    assert_eq!(info.message_timeout, Some(60));
    assert_eq!(info.size, Some(0));
    assert_eq!(info.total_messages, Some(0));
    let queue = get_queue(&store, &"jobs".to_string()).unwrap();
    assert_eq!(queue.name, Some("jobs".to_string()));
    assert_eq!(queue.size, Some(0));
    assert_eq!(queue.total_messages, Some(0));
    assert_eq!(queue.value.unwrap().message_expiration, Some(604800));
    assert_eq!(get_queue(&store, &"none".to_string()).err(), Some(QueueError::QueueNotFound));

    let mut nameless = QueueInfo::new("x".to_string());
    nameless.name = None;
    assert_eq!(create_queue(&mut store, nameless).err(), Some(QueueError::QueueNotFound));
    let mut nameless = QueueInfo::new("x".to_string());
    nameless.name = None;
    nameless.push(push_info(vec![QueueSubscriber::new("s", "u")]));
    assert_eq!(create_queue(&mut store, nameless).err(), Some(QueueError::TypeError));
    let mut nameless = QueueInfo::new("x".to_string());
    nameless.name = None;
    nameless.queue_type(QueueType::Multicast);
    assert_eq!(create_queue(&mut store, nameless).err(), Some(QueueError::SubscriberError));
    assert_eq!(list_queues(&store).len(), 1);
}

#[test]
fn create_makes_the_error_queue() {
    let mut store = Store::new();
    let mut info = push_queue("events", QueueType::Unicast, vec![QueueSubscriber::new("s", "u")]);
    info.push.as_mut().unwrap().error_queue = Some("dead".to_string());
    create_queue(&mut store, info).unwrap();
    let listed: Vec<String> = list_queues(&store).into_iter().map(|q| q.name).collect();
    assert_eq!(listed, vec!["events", "dead"]);
    let dead = get_queue_info(&store, "dead".to_string()).unwrap();
    assert_eq!(dead.queue_type, Some(QueueType::Pull));
    assert!(dead.push.is_none());
    assert_eq!(dead.message_timeout, None);
}

#[test]
fn create_again_keeps_the_messages() {
    let mut store = Store::new();
    create_queue(&mut store, QueueInfo::default("jobs".to_string())).unwrap();
    push_message(&mut store, "jobs".to_string(), Message::with_body("a")).unwrap();
    let mut again = QueueInfo::default("jobs".to_string());
    again.message_timeout(5);
    create_queue(&mut store, again).unwrap();
    let info = get_queue_info(&store, "jobs".to_string()).unwrap();
    assert_eq!(info.message_timeout, Some(5));
    assert_eq!(info.size, Some(1));
    assert_eq!(info.total_messages, Some(1));
    assert_eq!(peek_messages(&store, &"jobs".to_string(), &1).unwrap()[0].body, "a");
    assert_eq!(list_queues(&store).len(), 1);
}

#[test]
fn deleting_a_queue_takes_everything() {
    let mut store = Store::new();
    create_queue(&mut store, QueueInfo::default("a".to_string())).unwrap();
    create_queue(&mut store, QueueInfo::default("b".to_string())).unwrap();
    push_message(&mut store, "a".to_string(), Message::with_body("x")).unwrap();
    assert_eq!(delete(&mut store, "a".to_string()), Ok(true));
    assert_eq!(delete(&mut store, "a".to_string()), Ok(true));
    assert_eq!(delete(&mut store, "never there".to_string()), Ok(true));
    assert_eq!(get_queue_info(&store, "a".to_string()).err(), Some(QueueError::QueueNotFound));
    assert_eq!(
        peek_messages(&store, &"a".to_string(), &1).err(),
        Some(QueueError::QueueNotFound)
    );
    let listed: Vec<String> = list_queues(&store).into_iter().map(|q| q.name).collect();
    assert_eq!(listed, vec!["b"]);

    create_queue(&mut store, QueueInfo::default("ba".to_string())).unwrap();
    push_message(&mut store, "ba".to_string(), Message::with_body("kept")).unwrap();
    assert_eq!(delete(&mut store, "b".to_string()), Ok(true));
    let listed: Vec<String> = list_queues(&store).into_iter().map(|q| q.name).collect();
    assert_eq!(listed, vec!["ba"]);
    assert_eq!(peek_messages(&store, &"ba".to_string(), &1).unwrap()[0].body, "kept");
    assert_eq!(get_queue_info(&store, "ba".to_string()).unwrap().total_messages, Some(1));
    create_queue(&mut store, QueueInfo::default("a".to_string())).unwrap();
    assert_eq!(get_queue_info(&store, "a".to_string()).unwrap().total_messages, Some(0));
}

#[test]
fn patch_merges_what_is_present() {
    let mut store = Store::new();
    let mut info = push_queue("events", QueueType::Multicast, vec![QueueSubscriber::new("s", "u")]);
    info.push.as_mut().unwrap().retries(5);
    create_queue(&mut store, info).unwrap();

    let mut patch = QueueInfo::new("ignored".to_string());
    patch.queue_type = None;
    patch.message_timeout(120);
    patch.push(PushInfo {
        retries_delay: Some(9),
        retries: None,
        subscribers: Some(vec![QueueSubscriber::new("t", "v"), QueueSubscriber::new("w", "x")]),
        error_queue: Some("dead".to_string()),
    });
    let patched = patch_queue_info(&mut store, "events".to_string(), patch).unwrap();
    assert_eq!(patched.name, Some("events".to_string()));
    assert_eq!(patched.message_timeout, Some(120));
    assert_eq!(patched.message_expiration, Some(604800));
    assert_eq!(patched.queue_type, Some(QueueType::Multicast));
    let push = patched.push.unwrap();
    assert_eq!(push.retries, Some(5));
    assert_eq!(push.retries_delay, Some(9));
    assert_eq!(push.error_queue, Some("dead".to_string()));
    assert_eq!(names(&push.subscribers.unwrap()), vec!["t", "w"]);
    assert_eq!(names(&stored_subscribers(&store, "events")), vec!["t", "w"]);
    assert!(get_queue_info(&store, "dead".to_string()).is_ok());

    let mut small = QueueInfo::new("x".to_string());
    small.queue_type = None;
    small.message_expiration(10);
    let patched = patch_queue_info(&mut store, "events".to_string(), small).unwrap();
    assert_eq!(patched.message_timeout, Some(120));
    assert_eq!(patched.message_expiration, Some(10));
    assert_eq!(patched.push.unwrap().retries_delay, Some(9));
}

#[test]
fn patch_cannot_change_the_type() {
    let mut store = Store::new();
    create_queue(&mut store, QueueInfo::default("jobs".to_string())).unwrap();
    create_queue(
        &mut store,
        push_queue("events", QueueType::Unicast, vec![QueueSubscriber::new("s", "u")]),
    )
    .unwrap();

    let mut with_push = QueueInfo::new("jobs".to_string());
    with_push.queue_type = None;
    with_push.push(push_info(vec![QueueSubscriber::new("s", "u")]));
    assert_eq!(
        patch_queue_info(&mut store, "jobs".to_string(), with_push).err(),
        Some(QueueError::TypeError)
    );
    assert!(get_queue_info(&store, "jobs".to_string()).unwrap().push.is_none());

    let to_pull = QueueInfo::new("events".to_string());
    assert_eq!(
        patch_queue_info(&mut store, "events".to_string(), to_pull).err(),
        Some(QueueError::TypeError)
    );
    assert_eq!(
        get_queue_info(&store, "events".to_string()).unwrap().queue_type,
        Some(QueueType::Unicast)
    );

    let mut no_subscribers = QueueInfo::new("events".to_string());
    no_subscribers.queue_type = None;
    no_subscribers.push(push_info(vec![]));
    assert_eq!(
        patch_queue_info(&mut store, "events".to_string(), no_subscribers).err(),
        Some(QueueError::SubscriberError)
    );
    assert_eq!(names(&stored_subscribers(&store, "events")), vec!["s"]);

    let mut same = QueueInfo::new("events".to_string());
    same.queue_type(QueueType::Unicast);
    assert!(patch_queue_info(&mut store, "events".to_string(), same).is_ok());
    assert_eq!(
        patch_queue_info(&mut store, "none".to_string(), QueueInfo::new("none".to_string())).err(),
        Some(QueueError::QueueNotFound)
    );
}

#[test]
fn subscribers_are_merged_by_name() {
    let mut store = Store::new();
    create_queue(
        &mut store,
        push_queue(
            "events",
            QueueType::Multicast,
            vec![QueueSubscriber::new("a", "http://a"), QueueSubscriber::new("b", "http://b")],
        ),
    )
    .unwrap();
    let additions = vec![
        QueueSubscriber::new("c", "http://c"),
        QueueSubscriber::new("a", "http://a2"),
        QueueSubscriber::new("c", "http://c2"),
    ];
    assert_eq!(update_subscribers(&mut store, "events".to_string(), additions), Ok(true));
    let stored = stored_subscribers(&store, "events");
    assert_eq!(names(&stored), vec!["a", "b", "c"]);
    let urls: Vec<String> = stored.iter().map(|s| s.url.clone().unwrap()).collect();
    assert_eq!(urls, vec!["http://a2", "http://b", "http://c2"]);

    create_queue(&mut store, QueueInfo::default("jobs".to_string())).unwrap();
    assert_eq!(
        update_subscribers(&mut store, "jobs".to_string(), vec![QueueSubscriber::new("a", "u")]),
        Ok(false)
    );
    assert!(get_queue_info(&store, "jobs".to_string()).unwrap().push.is_none());
    assert_eq!(
        update_subscribers(&mut store, "none".to_string(), vec![]),
        Err(QueueError::QueueNotFound)
    );
}

#[test]
fn subscribers_are_replaced_all_at_once() {
    let mut store = Store::new();
    create_queue(
        &mut store,
        push_queue("events", QueueType::Unicast, vec![QueueSubscriber::new("a", "http://a")]),
    )
    .unwrap();
    let replaced = replace_subscribers(
        &mut store,
        "events".to_string(),
        vec![QueueSubscriber::new("x", "http://x"), QueueSubscriber::new("x", "http://y")],
    );
    assert_eq!(replaced, Ok(true));
    assert_eq!(names(&stored_subscribers(&store, "events")), vec!["x", "x"]);
    create_queue(&mut store, QueueInfo::default("jobs".to_string())).unwrap();
    assert_eq!(
        replace_subscribers(&mut store, "jobs".to_string(), vec![QueueSubscriber::new("a", "u")]),
        Ok(false)
    );
    assert_eq!(
        replace_subscribers(&mut store, "none".to_string(), vec![QueueSubscriber::new("a", "u")]),
        Err(QueueError::QueueNotFound)
    );
}

#[test]
fn the_last_subscriber_stays() {
    let mut store = Store::new();
    create_queue(
        &mut store,
        push_queue(
            "events",
            QueueType::Multicast,
            vec![
                QueueSubscriber::new("a", "http://a"),
                QueueSubscriber::new("b", "http://b"),
                QueueSubscriber::new("c", "http://c"),
            ],
        ),
    )
    .unwrap();
    let gone = vec![QueueSubscriber::new("b", "any"), QueueSubscriber::new("z", "any")];
    assert_eq!(delete_subscribers(&mut store, "events".to_string(), gone), Ok(true));
    assert_eq!(names(&stored_subscribers(&store, "events")), vec!["a", "c"]);
    let all = vec![QueueSubscriber::new("a", "any"), QueueSubscriber::new("c", "any")];
    assert_eq!(delete_subscribers(&mut store, "events".to_string(), all), Ok(false));
    assert_eq!(names(&stored_subscribers(&store, "events")), vec!["a", "c"]);
    assert_eq!(delete_subscribers(&mut store, "events".to_string(), vec![]), Ok(true));
    assert_eq!(names(&stored_subscribers(&store, "events")), vec!["a", "c"]);
    assert_eq!(
        delete_subscribers(&mut store, "none".to_string(), vec![]),
        Err(QueueError::QueueNotFound)
    );
}

#[test]
fn update_queue_info_takes_a_valid_configuration_of_the_same_type() {
    let mut store = Store::new();
    create_queue(&mut store, QueueInfo::default("jobs".to_string())).unwrap();
    let mut better = QueueInfo::default("jobs".to_string());
    better.message_timeout(9);
    assert!(update_queue_info(&mut store, better));
    assert_eq!(get_queue_info(&store, "jobs".to_string()).unwrap().message_timeout, Some(9));
    let other_type = push_queue("jobs", QueueType::Unicast, vec![QueueSubscriber::new("a", "u")]);
    assert!(!update_queue_info(&mut store, other_type));
    let mut invalid = QueueInfo::default("jobs".to_string());
    invalid.push(push_info(vec![]));
    assert!(!update_queue_info(&mut store, invalid));
    assert!(!update_queue_info(&mut store, QueueInfo::default("none".to_string())));
    assert_eq!(get_queue_info(&store, "jobs".to_string()).unwrap().message_timeout, Some(9));
}

#[test]
fn lists_of_subscribers_merge_and_shrink() {
    let current = vec![
        QueueSubscriber::new("a", "1"),
        QueueSubscriber::new("b", "2"),
        QueueSubscriber::new("a", "3"),
    ];
    assert_eq!(find_named(&current, &"a".to_string()), Some(0));
    assert_eq!(find_named(&current, &"b".to_string()), Some(1));
    assert_eq!(find_named(&current, &"c".to_string()), None);
    assert!(is_named(&current, &"b".to_string()));
    assert!(!is_named(&current, &"".to_string()));
    let merged = merge_subscribers(&current, &vec![QueueSubscriber::new("c", "4")]);
    assert_eq!(names(&merged), vec!["a", "b", "c"]);
    assert_eq!(merged[0].url, Some("3".to_string()));
    let left = remove_subscribers(&current, &vec![QueueSubscriber::new("a", "x")]);
    assert_eq!(names(&left), vec!["b"]);
    assert!(remove_subscribers(&current, &current).is_empty());
}
