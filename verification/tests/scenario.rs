use nats_tui::nats::message::Message;
use nats_tui::ui::aggregator::Aggregator;
use nats_tui::ui::subject_details::SubjectDetails;
use nats_tui::ui::subject_overview::{OverviewRow, SubjectOverview};

#[test]
fn three_messages_under_two_subjects() {
    let mut aggregator = Aggregator::new(false);
    aggregator.ingest(Message::new(String::from("a"), b"1".to_vec(), 0));
    aggregator.ingest(Message::new(String::from("b"), b"2".to_vec(), 1));
    aggregator.ingest(Message::new(String::from("a"), b"3".to_vec(), 2));

    let mut overview = SubjectOverview::new();
    let rows = overview.render(&aggregator);
    assert_eq!(
        rows,
        vec![
            OverviewRow { subject: String::from("a"), count: 2 },
            OverviewRow { subject: String::from("b"), count: 1 },
        ]
    );

    overview.select_next();
    assert_eq!(overview.selected(), Some(0));
    let selected = &aggregator.snapshot()[overview.selected().unwrap()];
    assert_eq!(selected.subject(), "a");

    let details = SubjectDetails::new();
    let frame = details.render(selected, 1).unwrap();
    assert_eq!(frame.payload, "3");
    assert_eq!(frame.recent, vec!["3", "1"]);
    assert_eq!(frame.total, 2);
}
