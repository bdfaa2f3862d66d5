use clickinaresi::action::Action;
use clickinaresi::app::App;
use clickinaresi::player::{PlaybackState, Player};
use clickinaresi::ports::{find_port, ConnectOutcome};
use clickinaresi::screen::{Op, RowClicks};
use clickinaresi::transport::Command;
use std::path::PathBuf;

const NO_CLICKS: RowClicks =
    RowClicks { up: false, down: false, remove: false, clicked: false, double_clicked: false };

fn app_of(count: usize) -> App {
    let mut app = App::new();
    app.set_tracks_from_paths((0..count).map(|i| PathBuf::from(format!("/m/{i}.mp3"))).collect());
    app
}

fn order(app: &App) -> String {
    app.tracks.iter().map(|t| t.name.chars().next().unwrap()).collect()
}

#[test]
fn a_player_follows_its_output() {
    let mut player = Player::new();
    assert_eq!(player.play_path("x".to_string(), Err("bad".to_string())), Err("bad".to_string()));
    assert_eq!(player.state, PlaybackState::Stopped);
    assert_eq!(player.play_path("x".to_string(), Ok(())), Ok(()));
    assert_eq!(player.state, PlaybackState::Playing);
    player.pause();
    assert_eq!(player.state, PlaybackState::Paused);
    player.poll(true);
    assert_eq!(player.state, PlaybackState::Paused);
    player.resume();
    player.poll(false);
    assert_eq!(player.state, PlaybackState::Playing);
    assert_eq!(player.current, Some("x".to_string()));
    player.poll(true);
    assert_eq!(player.state, PlaybackState::Stopped);
    assert_eq!(player.current, None);
    player.stop();
    assert_eq!(player.state, PlaybackState::Stopped);
}

#[test]
fn nothing_selected_starts_nothing() {
    let mut app = App::new();
    assert_eq!(app.dispatch(Action::PlayPause), Command::Nothing);
    assert_eq!(app.status, "No track selected");
    assert_eq!(app.player.state, PlaybackState::Stopped);
}

#[test]
fn playing_is_reported() {
    let mut app = app_of(2);
    assert_eq!(app.play_pause(), Command::Play(0));
    assert_eq!(app.player.state, PlaybackState::Stopped);
    app.play_result(0, Err("no decoder".to_string()));
    assert_eq!(app.status, "Failed to play 0.mp3: no decoder");
    assert_eq!(app.playing_index, None);
    app.play_result(0, Ok(()));
    assert_eq!(app.status, "Playing: 0.mp3");
    assert_eq!(app.playing_index, Some(0));
    assert_eq!(app.player.current, Some("0.mp3".to_string()));
}

#[test]
fn pause_and_resume_the_selected_track() {
    let mut app = app_of(2);
    app.play_result(0, Ok(()));
    assert_eq!(app.play_pause(), Command::Pause);
    assert_eq!(app.player.state, PlaybackState::Paused);
    assert_eq!(app.play_pause(), Command::Resume);
    assert_eq!(app.player.state, PlaybackState::Playing);
}

#[test]
fn a_moved_selection_is_started_instead() {
    let mut app = app_of(2);
    app.play_result(0, Ok(()));
    app.dispatch(Action::PlayPause);
    assert_eq!(app.dispatch(Action::Next), Command::Nothing);
    assert_eq!(app.player.state, PlaybackState::Paused);
    assert_eq!(app.dispatch(Action::PlayPause), Command::Play(1));
}

#[test]
fn stopping_forgets_the_loaded_track() {
    let mut app = app_of(1);
    app.play_result(0, Ok(()));
    assert_eq!(app.dispatch(Action::Stop), Command::Stop);
    assert_eq!(app.player.current, None);
    assert_eq!(app.playing_index, Some(0));
    app.follow_output(true);
    assert_eq!(app.playing_index, None);
}

#[test]
fn the_end_of_a_track_stops_the_player() {
    let mut app = app_of(1);
    app.play_result(0, Ok(()));
    app.follow_output(false);
    assert_eq!(app.player.state, PlaybackState::Playing);
    assert_eq!(app.playing_index, Some(0));
    app.follow_output(true);
    assert_eq!(app.player.state, PlaybackState::Stopped);
    assert_eq!(app.playing_index, None);
}

#[test]
fn the_selection_moves_within_the_list() {
    let mut app = app_of(3);
    app.select_prev();
    assert_eq!(app.selected, Some(0));
    app.select_next();
    app.select_next();
    assert_eq!(app.selected, Some(2));
    app.select_next();
    assert_eq!(app.selected, Some(2));
    app.select_prev();
    assert_eq!(app.selected, Some(1));
    app.selected = None;
    app.select_prev();
    assert_eq!(app.selected, Some(0));
    app.selected = None;
    app.select_next();
    assert_eq!(app.selected, Some(0));
    let mut empty = App::new();
    empty.select_next();
    empty.select_prev();
    assert_eq!(empty.selected, None);
}

#[test]
fn swapping_keeps_indices_at_their_tracks() {
    let mut app = app_of(4);
    app.selected = Some(1);
    app.playing_index = Some(3);
    app.swap_tracks(1, 3);
    assert_eq!(order(&app), "0321");
    assert_eq!(app.selected, Some(3));
    assert_eq!(app.playing_index, Some(1));
    app.swap_tracks(3, 1);
    assert_eq!(order(&app), "0123");
    assert_eq!(app.selected, Some(1));
    assert_eq!(app.playing_index, Some(3));
}

#[test]
fn moving_up_and_down_is_undone() {
    let mut app = app_of(3);
    app.selected = Some(2);
    app.move_up(2);
    assert_eq!(order(&app), "021");
    assert_eq!(app.selected, Some(1));
    app.move_down(1);
    assert_eq!(order(&app), "012");
    assert_eq!(app.selected, Some(2));
    app.move_up(0);
    app.move_down(2);
    assert_eq!(order(&app), "012");
}

#[test]
fn removing_keeps_a_sensible_selection() {
    let mut app = app_of(4);
    app.selected = Some(2);
    app.playing_index = Some(3);
    app.remove_track(0);
    assert_eq!(app.selected, Some(1));
    assert_eq!(app.playing_index, Some(2));
    app.remove_track(1);
    assert_eq!(order(&app), "13");
    assert_eq!(app.selected, Some(1));
    assert_eq!(app.playing_index, Some(1));
    app.remove_track(1);
    assert_eq!(app.selected, Some(0));
    assert_eq!(app.playing_index, None);
    app.remove_track(7);
    assert_eq!(app.tracks.len(), 1);
    app.remove_track(0);
    assert_eq!(app.selected, None);
}

#[test]
fn a_removed_track_plays_on() {
    let mut app = app_of(2);
    app.play_result(0, Ok(()));
    app.remove_track(0);
    assert_eq!(app.player.state, PlaybackState::Playing);
    assert_eq!(app.player.current, Some("0.mp3".to_string()));
    app.play_pause();
    assert_eq!(app.play_pause(), Command::Play(0));
}

#[test]
fn a_removed_paused_track_is_not_resumed() {
    let mut app = app_of(1);
    app.play_result(0, Ok(()));
    app.play_pause();
    app.remove_track(0);
    assert_eq!(app.selected, None);
    assert_eq!(app.play_pause(), Command::Nothing);
    assert_eq!(app.player.state, PlaybackState::Paused);
    assert_eq!(app.status, "No track selected");
}

#[test]
fn the_head_of_the_window() {
    let mut app = App::new();
    let now = app.now_playing();
    assert_eq!((now.caption, now.playing.as_str(), now.selected.as_str()), ("STOPPED", "—", "—"));
    assert_eq!(app.toggle_glyph(), "▶");
    app.set_tracks_from_paths(vec![PathBuf::from("/m/a very long name.mp3")]);
    app.play_result(0, Ok(()));
    let now = app.now_playing();
    assert_eq!(now.caption, "NOW PLAYING");
    assert_eq!(now.playing, "a very long nam");
    assert_eq!(now.selected, "a very long nam");
    assert_eq!(app.toggle_glyph(), "⏸");
    app.play_pause();
    assert_eq!(app.now_playing().caption, "PAUSED");
    assert_eq!(app.toggle_glyph(), "▶");
}

#[test]
fn the_rows_of_the_list() {
    let app = app_of(2);
    let first = app.row(0);
    assert_eq!((first.can_move_up, first.can_move_down, first.selected), (false, true, true));
    assert_eq!(first.name, "0.mp3");
    let last = app.row(1);
    assert_eq!((last.can_move_up, last.can_move_down, last.selected), (true, false, false));
}

#[test]
fn a_click_selects_and_a_double_click_starts() {
    let mut app = app_of(3);
    app.play_result(0, Ok(()));
    let mut pending = None;
    assert_eq!(app.row_input(0, NO_CLICKS, &mut pending), Command::Nothing);
    let click = RowClicks { clicked: true, ..NO_CLICKS };
    assert_eq!(app.row_input(2, click, &mut pending), Command::Nothing);
    assert_eq!(app.selected, Some(2));
    assert_eq!(app.player.state, PlaybackState::Playing);
    let double = RowClicks { clicked: true, double_clicked: true, ..NO_CLICKS };
    assert_eq!(app.row_input(1, double, &mut pending), Command::Restart(1));
    assert_eq!(app.selected, Some(1));
    assert_eq!(app.player.state, PlaybackState::Stopped);
    assert_eq!(pending, None);
}

#[test]
fn edits_are_deferred_and_the_last_one_counts() {
    let mut app = app_of(3);
    let mut pending = None;
    app.row_input(1, RowClicks { up: true, ..NO_CLICKS }, &mut pending);
    assert_eq!(pending, Some(Op::Up(1)));
    app.row_input(1, RowClicks { up: true, down: true, ..NO_CLICKS }, &mut pending);
    assert_eq!(pending, Some(Op::Down(1)));
    assert_eq!(order(&app), "012");
    app.apply_op(pending);
    assert_eq!(order(&app), "021");
    app.apply_op(Some(Op::Up(1)));
    assert_eq!(order(&app), "201");
    app.row_input(0, RowClicks { remove: true, ..NO_CLICKS }, &mut pending);
    app.apply_op(pending);
    assert_eq!(order(&app), "01");
    app.apply_op(None);
    assert_eq!(order(&app), "01");
}

#[test]
fn the_window_is_maximized_once() {
    let mut app = App::new();
    assert!(app.wants_maximize());
    assert!(!app.wants_maximize());
}

#[test]
fn ports_are_listed_by_name() {
    let mut app = App::new();
    app.open_config(Some(vec![Some("Keys".to_string()), None]));
    assert!(app.show_config);
    assert_eq!(app.midi_ports, vec!["Keys", "<unknown>"]);
    assert!(app.has_port("Keys"));
    assert!(!app.has_port("Key"));
    app.refresh_ports(None);
    assert!(app.midi_ports.is_empty());
}

#[test]
fn a_port_is_found_by_its_name() {
    let ports = vec![None, Some("a".to_string()), Some("b".to_string()), Some("b".to_string())];
    assert_eq!(find_port(&ports, "b"), Some(2));
    assert_eq!(find_port(&ports, "c"), None);
    assert_eq!(find_port(&ports, "<unknown>"), None);
}

#[test]
fn connecting_is_reported() {
    let mut app = App::new();
    assert_eq!(app.port_text(), "(none)");
    app.connect_port("Keys", ConnectOutcome::Connected);
    assert_eq!(app.status, "Connected to MIDI: Keys");
    assert_eq!(app.port_text(), "Keys");
    assert!(app.is_connected_to("Keys"));
    assert!(!app.is_connected_to("keys"));
    app.connect_port("Pads", ConnectOutcome::NotFound);
    assert_eq!(app.status, "MIDI port not found: Pads");
    assert_eq!(app.connected_port, None);
    assert!(!app.is_connected_to("Keys"));
    app.connect_port("Pads", ConnectOutcome::NoInput("no driver".to_string()));
    assert_eq!(app.status, "MIDI error: no driver");
    app.connect_port("Pads", ConnectOutcome::Refused("busy".to_string()));
    assert_eq!(app.status, "MIDI connect failed: busy");
}
