use clickinaresi::app::App;
use clickinaresi::player::PlaybackState;
use clickinaresi::transport::Command;
use std::path::PathBuf;

fn app_with(texts: &[&str]) -> App {
    let mut app = App::new();
    app.set_tracks_from_paths(texts.iter().map(PathBuf::from).collect());
    app
}

#[test]
fn replacing_tracks_selects_the_first() {
    let mut app = app_with(&["/m/a.mp3", "/m/notes.txt"]);
    assert_eq!(app.tracks.len(), 2);
    assert_eq!(app.tracks[1].name, "notes.txt");
    assert_eq!(app.selected, Some(0));
    app.set_tracks_from_paths(vec![]);
    assert_eq!(app.selected, None);
}

#[test]
fn playlists_are_spelled_with_indentation() {
    assert_eq!(app_with(&[]).playlist_json(), Ok("[]".to_string()));
    assert_eq!(
        app_with(&["/m/a.mp3", "/m/\"b\".mp3"]).playlist_json(),
        Ok("[\n  \"/m/a.mp3\",\n  \"/m/\\\"b\\\".mp3\"\n]".to_string())
    );
}

#[test]
fn a_saved_playlist_loads_again() {
    let saved = app_with(&["/m/a.mp3", "/m/ü\n\\.ogg", "b.wav"]);
    let text = saved.playlist_json().unwrap();
    let mut app = app_with(&["/other.mp3"]);
    app.load_playlist(PathBuf::from("/sets/live.json"), Ok(text));
    assert_eq!(app.tracks.len(), 3);
    for i in 0..3 {
        assert_eq!(app.tracks[i].path, saved.tracks[i].path);
        assert_eq!(app.tracks[i].name, saved.tracks[i].name);
    }
    assert_eq!(app.selected, Some(0));
    assert_eq!(app.current_playlist, Some(PathBuf::from("/sets/live.json")));
    assert_eq!(app.status, "Loaded 3 track(s) from /sets/live.json");
}

#[test]
fn what_is_no_playlist_changes_only_the_status() {
    let mut app = app_with(&["/m/a.mp3"]);
    app.load_playlist(PathBuf::from("/p.json"), Ok("{}".to_string()));
    assert_eq!(
        app.status,
        "Invalid playlist file: invalid type: map, expected a sequence at line 1 column 0"
    );
    app.load_playlist(PathBuf::from("/p.json"), Ok("[\"a\", 1]".to_string()));
    assert!(app.status.starts_with("Invalid playlist file: invalid type: integer `1`"));
    app.load_playlist(PathBuf::from("/p.json"), Err("no such file".to_string()));
    assert_eq!(app.status, "Open failed: no such file");
    assert_eq!(app.tracks.len(), 1);
    assert_eq!(app.selected, Some(0));
    assert_eq!(app.current_playlist, None);
}

#[test]
fn an_empty_playlist_has_no_selection() {
    let mut app = app_with(&["/m/a.mp3"]);
    app.load_playlist(PathBuf::from("/p.json"), Ok("[]".to_string()));
    assert_eq!(app.selected, None);
    assert_eq!(app.status, "Loaded 0 track(s) from /p.json");
}

#[test]
fn a_listed_path_is_taken_over() {
    let mut app = App::new();
    app.load_list(PathBuf::from("/p.json"), Ok(vec!["/m/a.mp3".to_string(), "x".to_string()]));
    assert_eq!(app.tracks[0].path, PathBuf::from("/m/a.mp3"));
    assert_eq!(app.tracks[1].name, "x");
    assert_eq!(app.status, "Loaded 2 track(s) from /p.json");
    app.load_list(PathBuf::from("/q.json"), Err("odd".to_string()));
    assert_eq!(app.status, "Invalid playlist file: odd");
    assert_eq!(app.tracks.len(), 2);
    assert_eq!(app.current_playlist, Some(PathBuf::from("/p.json")));
}

#[test]
fn a_new_playlist_leaves_playback() {
    let mut app = app_with(&["/m/a.mp3"]);
    app.save_result(PathBuf::from("/p.json"), Ok(()));
    app.play_result(0, Ok(()));
    app.new_playlist();
    assert!(app.tracks.is_empty());
    assert_eq!(app.selected, None);
    assert_eq!(app.current_playlist, None);
    assert_eq!(app.status, "New playlist");
    assert_eq!(app.player.current, Some("a.mp3".to_string()));
    assert_eq!(app.player.state, PlaybackState::Playing);
    assert_eq!(app.playing_index, None);
}

#[test]
fn a_paused_track_of_another_list_is_not_resumed() {
    let mut app = app_with(&["/m/a.mp3"]);
    app.play_result(0, Ok(()));
    app.play_pause();
    app.load_playlist(PathBuf::from("/p.json"), Ok("[\"/m/b.mp3\"]".to_string()));
    assert_eq!(app.player.state, PlaybackState::Paused);
    assert_eq!(app.selected, Some(0));
    assert_eq!(app.play_pause(), Command::Play(0));
    app.play_result(0, Ok(()));
    assert_eq!(app.player.state, PlaybackState::Playing);
    assert_eq!(app.player.current, Some("b.mp3".to_string()));
}

#[test]
fn the_same_list_opened_again_resumes_the_paused_track() {
    let mut app = app_with(&["/m/a.mp3", "/m/b.mp3"]);
    app.play_result(0, Ok(()));
    app.play_pause();
    let text = app.playlist_json().unwrap();
    app.load_playlist(PathBuf::from("/p.json"), Ok(text));
    assert_eq!(app.playing_index, Some(0));
    assert_eq!(app.play_pause(), Command::Resume);
}

#[test]
fn the_loaded_index_is_kept_only_in_its_place() {
    let mut app = app_with(&["/m/a.mp3", "/m/b.mp3"]);
    app.play_result(1, Ok(()));
    app.set_tracks_from_paths(vec![PathBuf::from("/m/x.mp3"), PathBuf::from("/m/b.mp3")]);
    assert_eq!(app.playing_index, Some(1));
    app.set_tracks_from_paths(vec![PathBuf::from("/m/b.mp3"), PathBuf::from("/m/x.mp3")]);
    assert_eq!(app.playing_index, None);
    app.play_result(1, Ok(()));
    app.set_tracks_from_paths(vec![PathBuf::from("/m/b.mp3")]);
    assert_eq!(app.playing_index, None);
}

#[test]
fn a_list_begun_anew_does_not_resume_the_paused_track() {
    let mut app = app_with(&["/m/a.mp3"]);
    app.play_result(0, Ok(()));
    app.play_pause();
    app.new_playlist();
    assert_eq!(app.play_pause(), Command::Nothing);
    assert_eq!(app.status, "No track selected");
    app.add_paths(vec![PathBuf::from("/m/b.mp3")]);
    assert_eq!(app.play_pause(), Command::Play(0));
}

#[test]
fn a_failed_load_keeps_the_loaded_track_resumable() {
    let mut app = app_with(&["/m/a.mp3"]);
    app.play_result(0, Ok(()));
    app.play_pause();
    app.load_playlist(PathBuf::from("/p.json"), Ok("{}".to_string()));
    assert_eq!(app.playing_index, Some(0));
    assert_eq!(app.play_pause(), Command::Resume);
}

#[test]
fn saving_is_reported() {
    let mut app = App::new();
    app.save_result(PathBuf::from("/p.json"), Err("disk full".to_string()));
    assert_eq!(app.status, "Save failed: disk full");
    assert_eq!(app.current_playlist, None);
    app.save_result(PathBuf::from("/p.json"), Ok(()));
    assert_eq!(app.status, "Saved playlist: /p.json");
    assert_eq!(app.current_playlist, Some(PathBuf::from("/p.json")));
}

#[test]
fn the_open_playlist_names_the_next_save() {
    let mut app = App::new();
    assert_eq!(app.default_playlist_name(), "playlist.json");
    app.save_result(PathBuf::from("/sets/live.json"), Ok(()));
    assert_eq!(app.default_playlist_name(), "live.json");
    app.save_result(PathBuf::from("/sets/.."), Ok(()));
    assert_eq!(app.default_playlist_name(), "playlist.json");
}
