use nats_tui::nats::message::Message;
use nats_tui::ui::app::{Action, App, AppState, Frame, Turn};
use nats_tui::ui::subject_overview::OverviewRow;
use nats_tui::ui::tui::{KeyCode, KeyEvent, KeyEventKind, Tui, TuiEvent};

fn press(code: KeyCode) -> TuiEvent {
    TuiEvent::Key(KeyEvent { code, kind: KeyEventKind::Press })
}

fn message(subject: &str, payload: &str, sequence: u64) -> Message {
    Message::new(String::from(subject), payload.as_bytes().to_vec(), sequence)
}

fn running() -> App {
    let mut app = App::new(4, 60);
    assert!(app.start());
    app
}

fn scenario() -> App {
    let mut app = running();
    let accepted = app.drain(vec![message("a", "1", 0), message("b", "2", 1), message("a", "3", 2)]);
    assert_eq!(accepted, 3);
    app
}

#[test]
fn a_new_app_is_starting() {
    let app = App::new(4, 60);
    assert_eq!(app.state(), AppState::Starting);
    assert_eq!(app.tick_rate(), 4);
    assert_eq!(app.frame_rate(), 60);
    assert_eq!(app.messages().total(), 0);
    assert!(!app.messages().dedup());
    assert!(App::with_dedup(4, 60, true).messages().dedup());
}

#[test]
fn the_app_moves_through_its_states_in_order() {
    let mut app = App::new(4, 60);
    assert!(app.start());
    assert_eq!(app.state(), AppState::Running);
    assert!(app.start());
    assert_eq!(app.state(), AppState::Running);
    app.stop();
    assert_eq!(app.state(), AppState::Running);
    assert_eq!(app.handle_event(press(KeyCode::Char('q'))), Action::Shutdown);
    assert_eq!(app.state(), AppState::ShuttingDown);
    assert!(!app.start());
    assert_eq!(app.state(), AppState::ShuttingDown);
    app.stop();
    assert_eq!(app.state(), AppState::Stopped);
    assert!(!app.start());
    app.stop();
    assert_eq!(app.state(), AppState::Stopped);
}

#[test]
fn an_app_that_failed_to_start_is_stopped() {
    let mut app = App::new(4, 60);
    app.stop();
    assert_eq!(app.state(), AppState::Stopped);
}

#[test]
fn events_before_the_start_do_nothing() {
    let mut app = App::new(4, 60);
    assert_eq!(app.handle_event(TuiEvent::Render), Action::Continue);
    assert_eq!(app.handle_event(press(KeyCode::Char('q'))), Action::Continue);
    assert_eq!(app.state(), AppState::Starting);
    assert_eq!(app.drain(vec![message("a", "1", 0)]), 0);
    assert_eq!(app.messages().total(), 0);
}

#[test]
fn only_render_asks_for_a_frame() {
    let mut app = scenario();
    assert_eq!(app.handle_event(TuiEvent::Tick), Action::Continue);
    assert_eq!(app.handle_event(TuiEvent::Error), Action::Continue);
    assert_eq!(app.handle_event(press(KeyCode::Down)), Action::Continue);
    assert_eq!(app.handle_event(press(KeyCode::Char('x'))), Action::Continue);
    assert_eq!(app.handle_event(TuiEvent::Render), Action::Draw);
}

#[test]
fn ticks_alone_change_nothing() {
    let mut app = scenario();
    app.draw(10);
    app.handle_event(press(KeyCode::Down));
    let before = app.draw(10);
    for _ in 0..1000 {
        assert_eq!(app.handle_event(TuiEvent::Tick), Action::Continue);
    }
    assert_eq!(app.state(), AppState::Running);
    assert_eq!(app.messages().total(), 3);
    assert_eq!(app.draw(10), before);
}

#[test]
fn a_quit_key_shuts_down_once_whatever_is_queued() {
    let mut app = scenario();
    let mut tui = Tui::init(app.tick_rate(), app.frame_rate(), None).unwrap();
    let queue = vec![
        TuiEvent::Tick,
        press(KeyCode::Char('q')),
        TuiEvent::Render,
        press(KeyCode::Char('q')),
        TuiEvent::Tick,
        press(KeyCode::Down),
        TuiEvent::Render,
        press(KeyCode::Char('q')),
        TuiEvent::Error,
    ];
    let mut shutdowns = 0;
    let mut restores = 0;
    let mut actions = Vec::new();
    for event in queue {
        let action = app.handle_event(event);
        if action == Action::Shutdown {
            shutdowns += 1;
            if !tui.exit().is_empty() {
                restores += 1;
            }
        }
        actions.push(action);
    }
    if !tui.exit().is_empty() {
        restores += 1;
    }
    assert_eq!(shutdowns, 1);
    assert_eq!(restores, 1);
    assert_eq!(actions[0], Action::Continue);
    assert_eq!(actions[1], Action::Shutdown);
    assert!(actions[2..].iter().all(|a| *a == Action::Continue));
    assert_eq!(app.state(), AppState::ShuttingDown);
}

#[test]
fn other_keys_do_not_quit() {
    let mut app = running();
    for code in [KeyCode::Char('Q'), KeyCode::Char('j'), KeyCode::Up, KeyCode::Other] {
        assert_eq!(app.handle_event(press(code)), Action::Continue);
        assert_eq!(app.state(), AppState::Running);
    }
}

#[test]
fn drain_after_the_quit_is_dropped() {
    let mut app = scenario();
    app.handle_event(press(KeyCode::Char('q')));
    assert_eq!(app.drain(vec![message("c", "4", 3)]), 0);
    assert_eq!(app.messages().total(), 3);
    assert_eq!(app.messages().subject_count(), 2);
}

#[test]
fn drain_with_dedup_counts_what_was_accepted() {
    let mut app = App::with_dedup(4, 60, true);
    app.start();
    let accepted = app.drain(vec![
        message("a", "1", 0),
        message("a", "1", 1),
        message("a", "2", 2),
        message("b", "1", 3),
        message("a", "2", 4),
    ]);
    assert_eq!(accepted, 3);
    assert_eq!(app.messages().total(), 3);
    assert_eq!(app.drain(Vec::new()), 0);
    assert_eq!(app.drain(vec![message("a", "1", 5)]), 0);
    assert_eq!(app.messages().total(), 3);
}

#[test]
fn draw_without_selection_shows_the_overview_only() {
    let mut app = scenario();
    let frame = app.draw(10);
    assert_eq!(
        frame,
        Frame {
            overview: vec![
                OverviewRow { subject: String::from("a"), count: 2 },
                OverviewRow { subject: String::from("b"), count: 1 },
            ],
            selected: None,
            details: None,
        }
    );
}

#[test]
fn draw_of_an_empty_state_is_empty() {
    let mut app = running();
    app.handle_event(press(KeyCode::Down));
    let frame = app.draw(0);
    assert_eq!(frame, Frame { overview: Vec::new(), selected: None, details: None });
}

#[test]
fn draw_shows_the_details_of_the_selected_subject() {
    let mut app = scenario();
    app.draw(10);
    app.handle_event(press(KeyCode::Down));
    app.handle_event(press(KeyCode::Down));
    let frame = app.draw(4);
    assert_eq!(frame.selected, Some(1));
    let details = frame.details.unwrap();
    assert_eq!(details.payload, "2");
    assert_eq!(details.payload_bytes, 1);
    assert_eq!(details.recent, vec!["2"]);
    assert_eq!(details.total, 1);
    assert_eq!(details.rate, Some(25));
}

#[test]
fn the_selection_follows_the_index_when_a_subject_arrives_before_it() {
    let mut app = running();
    app.drain(vec![message("m", "1", 0)]);
    app.draw(1);
    app.handle_event(press(KeyCode::Down));
    assert_eq!(app.draw(1).details.unwrap().payload, "1");
    app.drain(vec![message("c", "2", 1)]);
    let frame = app.draw(1);
    assert_eq!(frame.selected, Some(0));
    assert_eq!(frame.overview[0].subject, "c");
    assert_eq!(frame.details.unwrap().payload, "2");
}

#[test]
fn messages_arriving_between_frames_show_in_the_next_frame() {
    let mut app = running();
    app.drain(vec![message("a", "1", 0)]);
    let first = app.draw(1);
    assert_eq!(first.overview, vec![OverviewRow { subject: String::from("a"), count: 1 }]);
    app.drain(vec![message("a", "2", 1), message("b", "3", 2)]);
    app.handle_event(TuiEvent::Tick);
    let second = app.draw(1);
    assert_eq!(
        second.overview,
        vec![
            OverviewRow { subject: String::from("a"), count: 2 },
            OverviewRow { subject: String::from("b"), count: 1 },
        ]
    );
}

#[test]
fn a_turn_drains_before_it_draws() {
    let mut app = running();
    let batch = vec![message("a", "1", 0), message("b", "2", 1), message("a", "3", 2)];
    let turn = app.turn(batch, TuiEvent::Render, 1);
    assert_eq!(
        turn,
        Turn::Draw(Frame {
            overview: vec![
                OverviewRow { subject: String::from("a"), count: 2 },
                OverviewRow { subject: String::from("b"), count: 1 },
            ],
            selected: None,
            details: None,
        })
    );
}

#[test]
fn a_turn_without_render_draws_nothing() {
    let mut app = running();
    assert_eq!(app.turn(vec![message("a", "1", 0)], TuiEvent::Tick, 1), Turn::Continue);
    assert_eq!(app.turn(Vec::new(), TuiEvent::Error, 1), Turn::Continue);
    assert_eq!(app.turn(Vec::new(), press(KeyCode::Down), 1), Turn::Continue);
    assert_eq!(app.messages().total(), 1);
}

#[test]
fn a_turn_with_a_quit_key_shuts_down() {
    let mut app = running();
    assert_eq!(app.turn(vec![message("a", "1", 0)], press(KeyCode::Char('q')), 1), Turn::Shutdown);
    assert_eq!(app.state(), AppState::ShuttingDown);
    assert_eq!(app.messages().total(), 1);
    assert_eq!(app.turn(vec![message("a", "2", 1)], TuiEvent::Render, 1), Turn::Continue);
    assert_eq!(app.messages().total(), 1);
}

#[test]
fn the_selection_of_the_app_points_at_a_subject() {
    let mut app = scenario();
    assert_eq!(app.selected(), None);
    app.handle_event(press(KeyCode::Down));
    assert_eq!(app.selected(), None);
    app.draw(1);
    for expected in [Some(0), Some(1), Some(1), Some(1)] {
        app.handle_event(press(KeyCode::Down));
        assert_eq!(app.selected(), expected);
        assert!(app.selected().unwrap() < app.messages().subject_count());
    }
    app.drain(vec![message("c", "4", 3)]);
    app.handle_event(press(KeyCode::Char('j')));
    assert_eq!(app.selected(), Some(1));
    app.draw(1);
    app.handle_event(press(KeyCode::Char('j')));
    assert_eq!(app.selected(), Some(2));
    app.handle_event(press(KeyCode::Char('k')));
    assert_eq!(app.selected(), Some(1));
}

#[test]
fn the_end_of_the_multiplexer_shuts_a_running_app_down() {
    let mut app = scenario();
    assert_eq!(app.close(), Action::Shutdown);
    assert_eq!(app.state(), AppState::ShuttingDown);
    assert_eq!(app.close(), Action::Continue);
    assert_eq!(app.handle_event(press(KeyCode::Char('q'))), Action::Continue);
    app.stop();
    assert_eq!(app.state(), AppState::Stopped);
    assert_eq!(app.close(), Action::Continue);
    assert_eq!(app.state(), AppState::Stopped);
}

#[test]
fn the_end_of_the_multiplexer_before_the_start_changes_nothing() {
    let mut app = App::new(4, 60);
    assert_eq!(app.close(), Action::Continue);
    assert_eq!(app.state(), AppState::Starting);
}
