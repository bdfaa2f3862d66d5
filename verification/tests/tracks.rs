use clickinaresi::app::App;
use clickinaresi::paths::{display_name, is_audio_extension, is_audio_file, AUDIO_EXTENSIONS};
use clickinaresi::scan::{scan_dir, DirEntry};
use clickinaresi::text::{decimal_text, first_chars, same_text};
use std::path::PathBuf;

fn file(path: &str) -> DirEntry {
    DirEntry { path: PathBuf::from(path), is_dir: false, entries: vec![] }
}

fn dir(path: &str, entries: Vec<DirEntry>) -> DirEntry {
    DirEntry { path: PathBuf::from(path), is_dir: true, entries }
}

fn paths(texts: &[&str]) -> Vec<PathBuf> {
    texts.iter().map(PathBuf::from).collect()
}

fn names(app: &App) -> Vec<&str> {
    app.tracks.iter().map(|t| t.name.as_str()).collect()
}

#[test]
fn first_characters_are_whole() {
    assert_eq!(first_chars("hello", 3), "hel");
    assert_eq!(first_chars("hello", 5), "hello");
    assert_eq!(first_chars("hello", 50), "hello");
    assert_eq!(first_chars("hello", 0), "");
    assert_eq!(first_chars("", 4), "");
    assert_eq!(first_chars("äöü漢字🎵", 4), "äöü漢");
}

#[test]
fn numbers_are_written_in_decimal() {
    assert_eq!(decimal_text(0), "0");
    assert_eq!(decimal_text(9), "9");
    assert_eq!(decimal_text(10), "10");
    assert_eq!(decimal_text(4096), "4096");
    assert_eq!(decimal_text(usize::MAX), usize::MAX.to_string());
}

#[test]
fn texts_are_compared_by_characters() {
    assert!(same_text("", ""));
    assert!(same_text("né", "né"));
    assert!(!same_text("a", "A"));
    assert!(!same_text("a", "ab"));
}

#[test]
fn audio_files_are_told_by_extension() {
    for extension in AUDIO_EXTENSIONS {
        assert!(is_audio_file(&PathBuf::from(format!("/music/track.{extension}"))));
    }
    assert!(is_audio_file(&PathBuf::from("LOUD.MP3")));
    assert!(is_audio_file(&PathBuf::from("a.b.Flac")));
    assert!(!is_audio_file(&PathBuf::from("notes.txt")));
    assert!(!is_audio_file(&PathBuf::from("mp3")));
    assert!(!is_audio_file(&PathBuf::from(".mp3")));
    assert!(!is_audio_file(&PathBuf::from("track.mp3.bak")));
    assert!(!is_audio_file(&PathBuf::from("track.")));
    assert!(!is_audio_file(&PathBuf::from("..")));
    assert!(!is_audio_file(&PathBuf::from("")));
}

#[test]
fn extensions_count_in_any_case() {
    assert!(is_audio_extension("ogg"));
    assert!(is_audio_extension("OGG"));
    assert!(is_audio_extension("wAv"));
    assert!(!is_audio_extension("m4a"));
    assert!(!is_audio_extension(""));
    assert!(!is_audio_extension("mp3 "));
}

#[test]
fn tracks_are_named_after_their_files() {
    assert_eq!(display_name(&PathBuf::from("/music/a.mp3")), "a.mp3");
    assert_eq!(display_name(&PathBuf::from("/music/..")), "/music/..");
    assert_eq!(display_name(&PathBuf::from("/")), "/");
}

#[test]
fn only_audio_files_are_added() {
    let mut app = App::new();
    app.add_paths(paths(&["/m/b.mp3", "/m/readme.md", "/m/a.WAV"]));
    assert_eq!(names(&app), vec!["b.mp3", "a.WAV"]);
    assert_eq!(app.selected, Some(0));
    assert_eq!(app.status, "Added 2 track(s)");
    app.selected = Some(1);
    app.add_paths(paths(&["/m/c.ogg"]));
    assert_eq!(names(&app), vec!["b.mp3", "a.WAV", "c.ogg"]);
    assert_eq!(app.tracks[2].path, PathBuf::from("/m/c.ogg"));
    assert_eq!(app.selected, Some(1));
    assert_eq!(app.status, "Added 1 track(s)");
}

#[test]
fn adding_nothing_selects_nothing() {
    let mut app = App::new();
    app.add_paths(paths(&["/m/readme.md"]));
    assert_eq!(app.selected, None);
    assert_eq!(app.status, "Added 0 track(s)");
    assert!(app.tracks.is_empty());
}

#[test]
fn a_scan_goes_depth_first_in_path_order() {
    let mut found = paths(&["/first.mp3"]);
    scan_dir(
        vec![
            file("/m/z.mp3"),
            dir("/m/b", vec![file("/m/b/2.ogg"), file("/m/b/1.ogg"), file("/m/b/cover.png")]),
            file("/m/a.flac"),
            dir("/m/empty", vec![]),
            dir("/m/c.mp3", vec![file("/m/c.mp3/deep.wav")]),
        ],
        &mut found,
    );
    assert_eq!(
        found,
        paths(&[
            "/first.mp3",
            "/m/a.flac",
            "/m/b/1.ogg",
            "/m/b/2.ogg",
            "/m/c.mp3/deep.wav",
            "/m/z.mp3",
        ])
    );
}

#[test]
fn all_that_a_scan_finds_is_added() {
    let mut found = Vec::new();
    scan_dir(vec![file("/m/b.mp3"), file("/m/x.txt"), file("/m/a.mp3")], &mut found);
    let mut app = App::new();
    app.add_paths(found);
    assert_eq!(names(&app), vec!["a.mp3", "b.mp3"]);
}

#[test]
fn a_scan_is_in_path_order_whatever_the_listing() {
    let mut found = Vec::new();
    scan_dir(
        vec![
            file("/m/b.mp3"),
            dir("/m/b", vec![file("/m/b/z.mp3"), file("/m/b/a.mp3")]),
            file("/m/b-side.mp3"),
            dir("/m/a", vec![dir("/m/a/z", vec![file("/m/a/z/1.ogg")]), file("/m/a/y.ogg")]),
        ],
        &mut found,
    );
    assert_eq!(
        found,
        paths(&[
            "/m/a/y.ogg",
            "/m/a/z/1.ogg",
            "/m/b/a.mp3",
            "/m/b/z.mp3",
            "/m/b-side.mp3",
            "/m/b.mp3",
        ])
    );
    assert!(found.windows(2).all(|pair| pair[0] < pair[1]));
}
