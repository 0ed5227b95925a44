use nats_tui::nats::message::Message;
use nats_tui::ui::aggregator::Aggregator;
use nats_tui::ui::subject_details::{message_rate, DetailsFrame, SubjectDetails, HISTORY_WINDOW};
use nats_tui::ui::text::{choose_text, pretty_json, render_payload};

fn frame_of(payloads: &[&[u8]], uptime_seconds: u64) -> DetailsFrame {
    let mut aggregator = Aggregator::new(false);
    for (i, payload) in payloads.iter().enumerate() {
        aggregator.ingest(Message::new(String::from("s"), payload.to_vec(), i as u64));
    }
    let details = SubjectDetails::new();
    details.render(&aggregator.snapshot()[0], uptime_seconds).unwrap()
}

#[test]
fn details_show_the_latest_payload_and_the_history_latest_first() {
    let frame = frame_of(&[b"first", b"second", b"third"], 2);
    assert_eq!(frame.payload, "third");
    assert_eq!(frame.payload_bytes, 5);
    assert_eq!(frame.recent, vec!["third", "second", "first"]);
    assert_eq!(frame.total, 3);
    assert_eq!(frame.rate, Some(150));
}

#[test]
fn a_json_payload_is_pretty_printed() {
    let frame = frame_of(&[b"{\"b\":[1,2],\"a\":{\"c\":null}}"], 1);
    assert_eq!(
        frame.payload,
        "{\n  \"a\": {\n    \"c\": null\n  },\n  \"b\": [\n    1,\n    2\n  ]\n}"
    );
    assert_eq!(frame.payload_bytes, 26);
    assert_eq!(frame.recent, vec!["{\"b\":[1,2],\"a\":{\"c\":null}}"]);
}

#[test]
fn a_payload_that_is_no_json_is_shown_as_it_stands() {
    let frame = frame_of(&[b"{not json"], 1);
    assert_eq!(frame.payload, "{not json");
    let empty = frame_of(&[b""], 1);
    assert_eq!(empty.payload, "");
    assert_eq!(empty.payload_bytes, 0);
}

#[test]
fn a_payload_that_is_no_utf8_is_decoded_with_replacements() {
    let frame = frame_of(&[&[b'a', 0xff, b'b']], 1);
    assert_eq!(frame.payload, "a\u{fffd}b");
    assert_eq!(frame.payload_bytes, 3);
    assert_eq!(frame.recent, vec!["a\u{fffd}b"]);
}

#[test]
fn the_history_list_is_capped() {
    let texts: Vec<String> = (0..HISTORY_WINDOW + 20).map(|i| format!("m{}", i)).collect();
    let payloads: Vec<&[u8]> = texts.iter().map(|t| t.as_bytes()).collect();
    let frame = frame_of(&payloads, 60);
    assert_eq!(HISTORY_WINDOW, 100);
    assert_eq!(frame.total, 120);
    assert_eq!(frame.recent.len(), 100);
    assert_eq!(frame.recent[0], "m119");
    assert_eq!(frame.recent[99], "m20");
    assert_eq!(frame.payload, "m119");
    assert_eq!(frame.rate, Some(200));
}

#[test]
fn a_history_of_exactly_the_window_is_shown_whole() {
    let texts: Vec<String> = (0..HISTORY_WINDOW).map(|i| format!("m{}", i)).collect();
    let payloads: Vec<&[u8]> = texts.iter().map(|t| t.as_bytes()).collect();
    let frame = frame_of(&payloads, 1);
    assert_eq!(frame.recent.len(), 100);
    assert_eq!(frame.recent[99], "m0");
}

#[test]
fn the_rate_is_in_hundredths_and_rounded_down() {
    assert_eq!(message_rate(3, 2), Some(150));
    assert_eq!(message_rate(1, 3), Some(33));
    assert_eq!(message_rate(2, 3), Some(66));
    assert_eq!(message_rate(0, 5), Some(0));
    assert_eq!(message_rate(7, 1), Some(700));
    assert_eq!(message_rate(1, 1000), Some(0));
    assert_eq!(
        message_rate(usize::MAX, 1),
        Some((usize::MAX as u128) * 100)
    );
}

#[test]
fn there_is_no_rate_in_the_first_second() {
    assert_eq!(message_rate(0, 0), None);
    assert_eq!(message_rate(12, 0), None);
    assert_eq!(frame_of(&[b"x"], 0).rate, None);
}

#[test]
fn pretty_json_formats_documents_only() {
    assert_eq!(pretty_json("{\"a\":1}"), Some(String::from("{\n  \"a\": 1\n}")));
    assert_eq!(pretty_json("[]"), Some(String::from("[]")));
    assert_eq!(pretty_json(" 3 "), Some(String::from("3")));
    assert_eq!(pretty_json("\"text\""), Some(String::from("\"text\"")));
    assert_eq!(pretty_json(""), None);
    assert_eq!(pretty_json("{"), None);
    assert_eq!(pretty_json("plain text"), None);
    assert_eq!(pretty_json("{\"a\":1} trailing"), None);
}

#[test]
fn choose_text_prefers_the_formatted_text() {
    assert_eq!(choose_text(String::from("raw"), Some(String::from("pretty"))), "pretty");
    assert_eq!(choose_text(String::from("raw"), None), "raw");
    assert_eq!(choose_text(String::new(), Some(String::new())), "");
}

#[test]
fn render_payload_decodes_and_formats() {
    assert_eq!(render_payload(b"[1,2]"), "[\n  1,\n  2\n]");
    assert_eq!(render_payload(b"hello"), "hello");
    assert_eq!(render_payload(&[0xc3, 0x28]), "\u{fffd}(");
    assert_eq!(render_payload("\"é\"".as_bytes()), "\"é\"");
}

#[test]
fn a_utf8_payload_that_is_no_json_is_shown_as_it_stands() {
    assert_eq!(render_payload(b"plain"), "plain");
    assert_eq!(render_payload("日本語 é".as_bytes()), "日本語 é");
    assert_eq!(render_payload(b""), "");
    assert_eq!(render_payload(&[0xe2, 0x82]), "\u{fffd}");
    assert_eq!(render_payload(&[b'{', 0x80, b'}']), "{\u{fffd}}");
}
