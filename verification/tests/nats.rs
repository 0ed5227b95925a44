use nats_tui::nats::client::{Client, ClientError, Forward};
use nats_tui::nats::message::Message;
use nats_tui::Cli;

fn cli(subject: Option<&str>) -> Cli {
    Cli {
        server: String::from("localhost:4222"),
        username: String::new(),
        password: String::new(),
        subject: subject.map(String::from),
    }
}

#[test]
fn subject_pattern_defaults_to_match_everything() {
    assert_eq!(cli(None).subject_pattern(), ">");
}

#[test]
fn subject_pattern_keeps_a_configured_pattern() {
    assert_eq!(cli(Some("orders.*")).subject_pattern(), "orders.*");
}

#[test]
fn new_client_is_configured_and_not_subscribed() {
    let client = Client::new(Cli {
        server: String::from("nats://example:4222"),
        username: String::from("user"),
        password: String::from("secret"),
        subject: Some(String::from("orders.>")),
    });
    assert_eq!(client.server(), "nats://example:4222");
    assert_eq!(client.username(), "user");
    assert_eq!(client.password(), "secret");
    assert_eq!(client.pattern(), "orders.>");
    assert!(!client.is_subscribed());
    assert_eq!(client.received(), 0);
}

#[test]
fn new_client_without_pattern_matches_everything() {
    let client = Client::new(cli(None));
    assert_eq!(client.pattern(), ">");
}

#[test]
fn next_msg_without_subscription_is_an_error() {
    let mut client = Client::new(cli(None));
    let answer = client.next_msg(Some((String::from("a"), vec![1])));
    assert_eq!(answer.unwrap_err(), ClientError::NoSubscription);
    assert_eq!(client.received(), 0);
    let ended = client.next_msg(None);
    assert_eq!(ended.unwrap_err(), ClientError::NoSubscription);
}

#[test]
fn next_msg_after_the_stream_ended_is_an_error() {
    let mut client = Client::new(cli(None));
    client.subscribe(String::from(">"));
    assert!(client.is_subscribed());
    let answer = client.next_msg(None);
    assert_eq!(answer.unwrap_err(), ClientError::NoMessage);
    assert_eq!(client.received(), 0);
}

#[test]
fn next_msg_numbers_messages_by_arrival() {
    let mut client = Client::new(cli(None));
    client.subscribe(String::from(">"));
    let first = client.next_msg(Some((String::from("a"), vec![1, 2]))).unwrap();
    let second = client.next_msg(Some((String::from("b"), vec![3]))).unwrap();
    let third = client.next_msg(Some((String::from("a"), Vec::new()))).unwrap();
    assert_eq!(first.subject, "a");
    assert_eq!(first.payload, vec![1, 2]);
    assert_eq!(first.sequence, 0);
    assert_eq!(second.subject, "b");
    assert_eq!(second.sequence, 1);
    assert_eq!(third.payload, Vec::<u8>::new());
    assert_eq!(third.sequence, 2);
    assert_eq!(client.received(), 3);
}

#[test]
fn an_ended_stream_does_not_count_as_a_message() {
    let mut client = Client::new(cli(None));
    client.subscribe(String::from(">"));
    client.next_msg(Some((String::from("a"), vec![1]))).unwrap();
    assert!(client.next_msg(None).is_err());
    let next = client.next_msg(Some((String::from("a"), vec![2]))).unwrap();
    assert_eq!(next.sequence, 1);
}

#[test]
fn subscribe_replaces_an_earlier_subscription() {
    let mut client = Client::new(cli(None));
    client.subscribe(String::from("a.*"));
    client.subscribe(String::from("b.*"));
    assert!(client.is_subscribed());
    assert_eq!(client.pattern(), ">");
}

#[test]
fn error_descriptions() {
    assert_eq!(ClientError::NoSubscription.description(), "No subscription");
    assert_eq!(ClientError::NoMessage.description(), "No message");
}

#[test]
fn forward_pushes_messages_and_stops_on_errors() {
    let message = Message::new(String::from("a"), vec![7], 5);
    match Client::forward(Ok(message)) {
        Forward::Push(pushed) => {
            assert_eq!(pushed.subject, "a");
            assert_eq!(pushed.payload, vec![7]);
            assert_eq!(pushed.sequence, 5);
        }
        Forward::Stop => panic!("a message must be pushed on"),
    }
    assert!(matches!(Client::forward(Err(ClientError::NoMessage)), Forward::Stop));
    assert!(matches!(Client::forward(Err(ClientError::NoSubscription)), Forward::Stop));
}
