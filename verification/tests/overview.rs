use nats_tui::nats::message::Message;
use nats_tui::ui::aggregator::Aggregator;
use nats_tui::ui::subject_overview::{OverviewRow, SubjectOverview};
use nats_tui::ui::tui::KeyCode;

fn aggregator_with(subjects: &[&str]) -> Aggregator {
    let mut aggregator = Aggregator::new(false);
    for (i, subject) in subjects.iter().enumerate() {
        aggregator.ingest(Message::new(String::from(*subject), vec![b'x'], i as u64));
    }
    aggregator
}

fn row(subject: &str, count: usize) -> OverviewRow {
    OverviewRow { subject: String::from(subject), count }
}

#[test]
fn a_new_overview_selects_nothing() {
    let overview = SubjectOverview::new();
    assert_eq!(overview.selected(), None);
    assert_eq!(overview.count(), 0);
    let default = SubjectOverview::default();
    assert_eq!(default.selected(), None);
    assert_eq!(default.count(), 0);
}

#[test]
fn render_lists_subjects_with_their_counts() {
    let aggregator = aggregator_with(&["b", "a", "c", "a", "a", "c"]);
    let mut overview = SubjectOverview::new();
    let rows = overview.render(&aggregator);
    assert_eq!(rows, vec![row("a", 3), row("b", 1), row("c", 2)]);
    assert_eq!(overview.count(), 3);
    assert_eq!(overview.selected(), None);
}

#[test]
fn render_of_an_empty_state_has_no_rows() {
    let mut overview = SubjectOverview::new();
    let rows = overview.render(&Aggregator::new(false));
    assert!(rows.is_empty());
    assert_eq!(overview.count(), 0);
}

#[test]
fn nothing_can_be_selected_without_rows() {
    let mut overview = SubjectOverview::new();
    overview.select_next();
    assert_eq!(overview.selected(), None);
    overview.select_previous();
    assert_eq!(overview.selected(), None);
    overview.handle_key(KeyCode::Down);
    assert_eq!(overview.selected(), None);
}

#[test]
fn select_next_stops_at_the_last_row() {
    let aggregator = aggregator_with(&["a", "b", "c"]);
    let mut overview = SubjectOverview::new();
    overview.render(&aggregator);
    let mut seen = Vec::new();
    for _ in 0..6 {
        overview.select_next();
        seen.push(overview.selected());
    }
    assert_eq!(seen, vec![Some(0), Some(1), Some(2), Some(2), Some(2), Some(2)]);
}

#[test]
fn select_previous_stops_at_the_first_row() {
    let aggregator = aggregator_with(&["a", "b", "c"]);
    let mut overview = SubjectOverview::new();
    overview.render(&aggregator);
    overview.select_next();
    overview.select_next();
    overview.select_next();
    let mut seen = Vec::new();
    for _ in 0..5 {
        overview.select_previous();
        seen.push(overview.selected());
    }
    assert_eq!(seen, vec![Some(1), Some(0), Some(0), Some(0), Some(0)]);
}

#[test]
fn select_previous_without_selection_selects_the_first_row() {
    let aggregator = aggregator_with(&["a", "b"]);
    let mut overview = SubjectOverview::new();
    overview.render(&aggregator);
    overview.select_previous();
    assert_eq!(overview.selected(), Some(0));
}

#[test]
fn reset_selection_selects_nothing() {
    let aggregator = aggregator_with(&["a", "b"]);
    let mut overview = SubjectOverview::new();
    overview.render(&aggregator);
    overview.select_next();
    assert_eq!(overview.selected(), Some(0));
    overview.reset_selection();
    assert_eq!(overview.selected(), None);
    assert_eq!(overview.count(), 2);
}

#[test]
fn keys_move_the_selection() {
    let aggregator = aggregator_with(&["a", "b", "c"]);
    let mut overview = SubjectOverview::new();
    overview.render(&aggregator);
    overview.handle_key(KeyCode::Down);
    assert_eq!(overview.selected(), Some(0));
    overview.handle_key(KeyCode::Char('j'));
    assert_eq!(overview.selected(), Some(1));
    overview.handle_key(KeyCode::Char('x'));
    assert_eq!(overview.selected(), Some(1));
    overview.handle_key(KeyCode::Other);
    assert_eq!(overview.selected(), Some(1));
    overview.handle_key(KeyCode::Char('J'));
    assert_eq!(overview.selected(), Some(1));
    overview.handle_key(KeyCode::Up);
    assert_eq!(overview.selected(), Some(0));
    overview.handle_key(KeyCode::Char('j'));
    overview.handle_key(KeyCode::Char('k'));
    assert_eq!(overview.selected(), Some(0));
    overview.handle_key(KeyCode::Char('k'));
    assert_eq!(overview.selected(), Some(0));
}

#[test]
fn the_selection_always_points_at_a_row() {
    let aggregator = aggregator_with(&["a", "b", "c", "d"]);
    let mut overview = SubjectOverview::new();
    overview.render(&aggregator);
    let keys = [
        KeyCode::Up,
        KeyCode::Down,
        KeyCode::Down,
        KeyCode::Char('j'),
        KeyCode::Char('j'),
        KeyCode::Char('j'),
        KeyCode::Down,
        KeyCode::Char('q'),
        KeyCode::Char('k'),
        KeyCode::Up,
        KeyCode::Up,
        KeyCode::Up,
        KeyCode::Up,
        KeyCode::Other,
    ];
    for key in keys.iter() {
        overview.handle_key(*key);
        match overview.selected() {
            Some(index) => assert!(index < overview.count()),
            None => {}
        }
    }
}

#[test]
fn render_fits_the_selection_to_fewer_rows() {
    let mut overview = SubjectOverview::new();
    overview.render(&aggregator_with(&["a", "b", "c", "d"]));
    for _ in 0..4 {
        overview.select_next();
    }
    assert_eq!(overview.selected(), Some(3));
    overview.render(&aggregator_with(&["a", "b"]));
    assert_eq!(overview.selected(), Some(1));
    assert_eq!(overview.count(), 2);
    overview.render(&Aggregator::new(false));
    assert_eq!(overview.selected(), None);
    assert_eq!(overview.count(), 0);
}

#[test]
fn render_keeps_a_selection_that_still_fits() {
    let mut overview = SubjectOverview::new();
    overview.render(&aggregator_with(&["a", "b"]));
    overview.select_next();
    overview.select_next();
    assert_eq!(overview.selected(), Some(1));
    overview.render(&aggregator_with(&["a", "b", "c"]));
    assert_eq!(overview.selected(), Some(1));
    overview.select_next();
    assert_eq!(overview.selected(), Some(2));
}
