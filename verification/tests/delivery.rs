use rusted_iron::error::QueueError;
use rusted_iron::message::{Message, PushMessage};
use rusted_iron::mq::message::{get_message, push_message};
use rusted_iron::mq::reserve::peek_messages;
use rusted_iron::mq::status::{get_push_statuses, record_push_status};
use rusted_iron::mq::queue::{create_queue, get_queue_info};
use rusted_iron::mq::Store;
use rusted_iron::pusher::{
    construct_headers, dead_letter, is_accepted, post_request, push_status, schedule_of,
    update_push_status, Delivery, DeliveryAction, Schedule,
};
use rusted_iron::queue_info::{PushInfo, PushStatus, QueueInfo, QueueSubscriber, QueueType};

fn subscribers(count: usize) -> Vec<QueueSubscriber> {
    (1..=count).map(|i| QueueSubscriber::new(&format!("s{}", i), &format!("http://s{}", i))).collect()
}

fn push_queue(
    name: &str,
    queue_type: QueueType,
    count: usize,
    retries: Option<u32>,
    error_queue: Option<&str>,
) -> QueueInfo {
    let mut info = QueueInfo::new(name.to_string());
    info.queue_type(queue_type).push(PushInfo {
        retries_delay: Some(10),
        retries,
        subscribers: Some(subscribers(count)),
        error_queue: error_queue.map(|q| q.to_string()),
    });
    info
}

/// Runs a delivery to its end; `respond` says what each subscriber answers
/// to each attempt.
fn run(schedule: &Schedule, respond: &dyn Fn(u32, usize) -> Option<u16>) -> Vec<DeliveryAction> {
    let mut trace = Vec::new();
    let (mut state, mut action) = schedule.start();
    loop {
        trace.push(action);
        let response = match action {
            DeliveryAction::Post { subscriber, attempt } => respond(attempt, subscriber),
            DeliveryAction::Sleep { .. } => None,
            DeliveryAction::DeadLetter | DeliveryAction::Stop => break,
        };
        let step = schedule.advance(state, response);
        state = step.0;
        action = step.1;
        assert!(trace.len() < 10_000);
    }
    assert_eq!(state, Delivery::Finished);
    trace
}

fn post(subscriber: usize, attempt: u32) -> DeliveryAction {
    DeliveryAction::Post { subscriber, attempt }
}

#[test]
fn unicast_stops_at_the_first_success() {
    let schedule =
        Schedule { retries: 3, delay: 10, subscribers: 3, unicast: true, dead_letter: true };
    let trace = run(&schedule, &|_, _| Some(200));
    assert_eq!(trace, vec![post(0, 1), DeliveryAction::Stop]);

    let trace = run(&schedule, &|_, subscriber| if subscriber == 1 { Some(204) } else { Some(500) });
    assert_eq!(trace, vec![post(0, 1), post(1, 1), DeliveryAction::Stop]);

    let trace = run(&schedule, &|attempt, subscriber| {
        if attempt == 2 && subscriber == 2 {
            Some(200)
        } else {
            Some(503)
        }
    });
    assert_eq!(
        trace,
        vec![
            post(0, 1),
            post(1, 1),
            post(2, 1),
            DeliveryAction::Sleep { seconds: 10 },
            post(0, 2),
            post(1, 2),
            post(2, 2),
            DeliveryAction::Stop,
        ]
    );
}

#[test]
fn exhausted_delivery_goes_to_the_error_queue_once() {
    let mut store = Store::new();
    let info = push_queue("events", QueueType::Multicast, 2, Some(2), Some("dead"));
    create_queue(&mut store, info).unwrap();
    let sent = push_message(&mut store, "events".to_string(), Message::with_body("x")).unwrap();
    let broadcast = sent.broadcast.unwrap();

    let schedule = schedule_of(&broadcast);
    assert_eq!(
        schedule,
        Schedule { retries: 2, delay: 10, subscribers: 2, unicast: false, dead_letter: true }
    );
    let trace = run(&schedule, &|_, _| Some(500));
    assert_eq!(
        trace,
        vec![
            post(0, 1),
            post(1, 1),
            DeliveryAction::Sleep { seconds: 10 },
            post(0, 2),
            post(1, 2),
            DeliveryAction::DeadLetter,
        ]
    );
    let letters = trace.iter().filter(|a| **a == DeliveryAction::DeadLetter).count();
    assert_eq!(letters, 1);

    let (queue, message) = dead_letter(&broadcast).unwrap();
    assert_eq!(queue, "dead");
    assert_eq!(message.body, "x");
    assert_eq!(message.id, None);
    push_message(&mut store, queue.clone(), message).unwrap();
    let dead = peek_messages(&store, &queue, &-1).unwrap();
    assert_eq!(dead.len(), 1);
    assert_eq!(dead[0].body, "x");
    assert_ne!(dead[0].id, Some(sent.id.clone()));
    assert_eq!(get_queue_info(&store, queue).unwrap().size, Some(1));
}

#[test]
fn transport_failures_count_as_failures() {
    let schedule =
        Schedule { retries: 1, delay: 0, subscribers: 1, unicast: true, dead_letter: true };
    assert_eq!(run(&schedule, &|_, _| None), vec![post(0, 1), DeliveryAction::DeadLetter]);
    let quiet = Schedule { dead_letter: false, ..schedule };
    assert_eq!(run(&quiet, &|_, _| None), vec![post(0, 1), DeliveryAction::Stop]);
    assert!(is_accepted(Some(200)));
    assert!(is_accepted(Some(299)));
    assert!(!is_accepted(Some(199)));
    assert!(!is_accepted(Some(300)));
    assert!(!is_accepted(Some(404)));
    assert!(!is_accepted(None));
}

#[test]
fn multicast_posts_to_all_and_the_last_answer_decides() {
    let schedule =
        Schedule { retries: 2, delay: 5, subscribers: 3, unicast: false, dead_letter: false };
    let trace = run(&schedule, &|_, _| Some(200));
    assert_eq!(trace, vec![post(0, 1), post(1, 1), post(2, 1), DeliveryAction::Stop]);

    let trace = run(&schedule, &|_, subscriber| if subscriber == 2 { Some(500) } else { Some(200) });
    assert_eq!(
        trace,
        vec![
            post(0, 1),
            post(1, 1),
            post(2, 1),
            DeliveryAction::Sleep { seconds: 5 },
            post(0, 2),
            post(1, 2),
            post(2, 2),
            DeliveryAction::Stop,
        ]
    );

    let trace = run(&schedule, &|_, subscriber| if subscriber == 2 { Some(200) } else { Some(500) });
    assert_eq!(trace, vec![post(0, 1), post(1, 1), post(2, 1), DeliveryAction::Stop]);
}

#[test]
fn a_delivery_without_attempts_or_subscribers() {
    let none = Schedule { retries: 0, delay: 5, subscribers: 2, unicast: true, dead_letter: true };
    assert_eq!(none.start(), (Delivery::Finished, DeliveryAction::Stop));
    assert_eq!(run(&none, &|_, _| Some(500)), vec![DeliveryAction::Stop]);

    let alone = Schedule { retries: 2, delay: 5, subscribers: 0, unicast: false, dead_letter: true };
    assert_eq!(
        run(&alone, &|_, _| Some(200)),
        vec![DeliveryAction::Sleep { seconds: 5 }, DeliveryAction::DeadLetter]
    );
    assert_eq!(
        alone.advance(Delivery::Finished, Some(200)),
        (Delivery::Finished, DeliveryAction::Stop)
    );
    assert_eq!(
        alone.advance(Delivery::Sleeping { attempt: 2 }, None),
        (Delivery::Finished, DeliveryAction::Stop)
    );
}

#[test]
fn the_schedule_follows_the_configuration() {
    let message = Message::with_body("b");
    let unicast = PushMessage {
        queue_info: push_queue("q", QueueType::Unicast, 3, None, Some("")),
        msg: message.clone(),
    };
    assert_eq!(
        schedule_of(&unicast),
        Schedule { retries: 3, delay: 10, subscribers: 3, unicast: true, dead_letter: false }
    );
    assert!(dead_letter(&unicast).is_none());

    let mut bare = push_queue("q", QueueType::Multicast, 0, Some(7), Some("dead"));
    bare.push.as_mut().unwrap().retries_delay = None;
    bare.push.as_mut().unwrap().subscribers = None;
    let multicast = PushMessage { queue_info: bare, msg: message.clone() };
    assert_eq!(
        schedule_of(&multicast),
        Schedule { retries: 7, delay: 60, subscribers: 0, unicast: false, dead_letter: true }
    );

    let pull = PushMessage { queue_info: QueueInfo::default("q".to_string()), msg: message };
    assert_eq!(
        schedule_of(&pull),
        Schedule { retries: 0, delay: 0, subscribers: 0, unicast: false, dead_letter: false }
    );
    assert!(dead_letter(&pull).is_none());
}

#[test]
fn a_post_carries_the_headers_of_the_subscriber() {
    let pair = |a: &str, b: &str| (a.to_string(), b.to_string());
    assert_eq!(
        construct_headers(&vec![pair("X-Key", "k")], false),
        vec![
            pair("User-Agent", "pusher/0.1.0"),
            pair("Content-Type", "application/json"),
            pair("X-Key", "k"),
        ]
    );
    assert_eq!(construct_headers(&vec![], true), vec![pair("User-Agent", "pusher/0.1.0")]);

    let mut info = push_queue("q", QueueType::Unicast, 2, None, None);
    {
        let list = info.push.as_mut().unwrap().subscribers.as_mut().unwrap();
        list[0].headers(vec![pair("X-A", "1"), pair("X-B", "2")]);
        list[1].url = None;
    }
    let pm = PushMessage { queue_info: info, msg: Message::with_body("the body") };
    let request = post_request(&pm, 0).unwrap();
    assert_eq!(request.url, "http://s1");
    assert_eq!(request.body, "the body");
    assert_eq!(
        request.headers,
        vec![
            pair("User-Agent", "pusher/0.1.0"),
            pair("Content-Type", "application/json"),
            pair("X-A", "1"),
            pair("X-B", "2"),
        ]
    );
    assert!(post_request(&pm, 1).is_none());
    assert!(post_request(&pm, 2).is_none());
    assert!(push_status(&pm, 1, 1, Some(200)).is_none());
}

#[test]
fn a_status_counts_the_attempts() {
    let pm = PushMessage {
        queue_info: push_queue("q", QueueType::Multicast, 2, Some(5), None),
        msg: Message::with_body("b"),
    };
    let status = push_status(&pm, 1, 2, Some(503)).unwrap();
    assert_eq!(status.subscriber_name, "s2");
    assert_eq!(status.url, "http://s2");
    assert_eq!(status.tries, 2);
    assert_eq!(status.retries_remaining, 3);
    assert_eq!(status.status_code, Some(503));
    assert_eq!(status.msg, Some("b".to_string()));
    assert_eq!(push_status(&pm, 0, 5, None).unwrap().retries_remaining, 0);
    assert_eq!(push_status(&pm, 0, 9, None).unwrap().retries_remaining, 0);
    assert_eq!(push_status(&pm, 0, 9, None).unwrap().status_code, None);
}

#[test]
fn the_latest_status_for_each_address_is_kept() {
    let mut store = Store::new();
    create_queue(&mut store, push_queue("events", QueueType::Multicast, 2, Some(3), None)).unwrap();
    let queue = "events".to_string();
    let sent = push_message(&mut store, queue.clone(), Message::with_body("b")).unwrap();
    let pm = sent.broadcast.unwrap();

    assert_eq!(update_push_status(&mut store, &pm, 0, 1, Some(500)), Ok(true));
    assert_eq!(update_push_status(&mut store, &pm, 1, 1, Some(200)), Ok(true));
    assert_eq!(update_push_status(&mut store, &pm, 0, 2, Some(201)), Ok(true));
    let statuses = get_push_statuses(&store, &queue, &sent.id).unwrap();
    assert_eq!(statuses.len(), 2);
    assert_eq!(statuses[0].url, "http://s1");
    assert_eq!(statuses[0].status_code, Some(201));
    assert_eq!(statuses[0].tries, 2);
    assert_eq!(statuses[0].retries_remaining, 1);
    assert_eq!(statuses[1].url, "http://s2");
    assert_eq!(statuses[1].status_code, Some(200));
    assert_eq!(get_message(&store, &queue, &sent.id).unwrap().body, "b");

    assert_eq!(update_push_status(&mut store, &pm, 7, 1, Some(200)), Err(QueueError::SubscriberError));
    let mut unknown = pm.clone();
    unknown.msg.source_msg_id = Some("gone".to_string());
    assert_eq!(
        update_push_status(&mut store, &unknown, 0, 1, Some(200)),
        Err(QueueError::MessageNotFound)
    );
    unknown.msg.source_msg_id = None;
    assert_eq!(
        update_push_status(&mut store, &unknown, 0, 1, Some(200)),
        Err(QueueError::MessageNotFound)
    );
    unknown.queue_info.name = None;
    assert_eq!(
        update_push_status(&mut store, &unknown, 0, 1, Some(200)),
        Err(QueueError::QueueNotFound)
    );
    assert_eq!(
        get_push_statuses(&store, &queue, &"gone".to_string()).err(),
        Some(QueueError::MessageNotFound)
    );
    assert_eq!(
        get_push_statuses(&store, &"none".to_string(), &sent.id).err(),
        Some(QueueError::QueueNotFound)
    );

    let direct = PushStatus {
        subscriber_name: "s1".to_string(),
        retries_remaining: 0,
        tries: 3,
        status_code: None,
        url: "http://s1".to_string(),
        msg: None,
    };
    assert_eq!(record_push_status(&mut store, &queue, &sent.id, direct), Ok(true));
    let statuses = get_push_statuses(&store, &queue, &sent.id).unwrap();
    assert_eq!(statuses.len(), 2);
    assert_eq!(statuses[0].tries, 3);
    assert_eq!(statuses[0].status_code, None);
}
