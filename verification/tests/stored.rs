use clickinaresi::action::Action;
use clickinaresi::midi::MidiBindings;
use clickinaresi::settings::{
    Found, LAST_PLAYLIST_KEY, MIDI_BINDINGS_KEY, MIDI_PORT_KEY, VOLUME_KEY,
};
use clickinaresi::app::App;
use clickinaresi::ports::ConnectOutcome;
use clickinaresi::stored::{
    binding_from_fields, bindings_from_json, bindings_from_list, bindings_from_value,
    bindings_to_json, Fields,
};
use serde_json::Value;
use std::path::PathBuf;

#[test]
fn bindings_are_spelled_as_records() {
    assert_eq!(bindings_to_json(&[]), "[]");
    assert_eq!(
        bindings_to_json(&[([0x90, 60], Action::PlayPause), ([0xB0, 7], Action::Stop)]),
        "[{\"action\":\"play_pause\",\"data1\":60,\"status\":144},\
         {\"action\":\"stop\",\"data1\":7,\"status\":176}]"
    );
}

#[test]
fn bindings_survive_storing() {
    let map = vec![
        ([0x90, 60], Action::PlayPause),
        ([0xB0, 7], Action::Stop),
        ([0x00, 255], Action::Next),
        ([0x90, 60], Action::Prev),
    ];
    assert_eq!(bindings_from_json(&bindings_to_json(&map)), map);
}

#[test]
fn texts_that_are_no_array_hold_no_bindings() {
    assert!(bindings_from_json("").is_empty());
    assert!(bindings_from_json("[").is_empty());
    assert!(bindings_from_json("null").is_empty());
    assert!(bindings_from_json("{\"status\":144,\"data1\":60,\"action\":\"stop\"}").is_empty());
    assert!(bindings_from_json("[]").is_empty());
}

#[test]
fn elements_that_are_no_bindings_are_skipped() {
    let text = "[1, \"stop\", null, {}, \
        {\"status\":144,\"data1\":60}, \
        {\"status\":-1,\"data1\":60,\"action\":\"stop\"}, \
        {\"status\":1.5,\"data1\":60,\"action\":\"stop\"}, \
        {\"status\":\"144\",\"data1\":60,\"action\":\"stop\"}, \
        {\"status\":144,\"data1\":60,\"action\":\"fly\"}, \
        {\"status\":144,\"data1\":60,\"action\":\"next\",\"extra\":true}, \
        [144, 60]]";
    assert_eq!(bindings_from_json(text), vec![([144, 60], Action::Next)]);
}

#[test]
fn numbers_beyond_a_byte_count_by_their_low_byte() {
    let text = "[{\"status\":400,\"data1\":18446744073709551615,\"action\":\"prev\"}]";
    assert_eq!(bindings_from_json(text), vec![([144, 255], Action::Prev)]);
    assert_eq!(
        binding_from_fields(Some(256), Some(511), Some("stop")),
        Some(([0, 255], Action::Stop))
    );
}

#[test]
fn every_field_of_a_binding_is_needed() {
    assert_eq!(
        binding_from_fields(Some(144), Some(60), Some("stop")),
        Some(([144, 60], Action::Stop))
    );
    assert_eq!(binding_from_fields(None, Some(60), Some("stop")), None);
    assert_eq!(binding_from_fields(Some(144), None, Some("stop")), None);
    assert_eq!(binding_from_fields(Some(144), Some(60), None), None);
    assert_eq!(binding_from_fields(Some(144), Some(60), Some("")), None);
}

#[test]
fn bindings_are_read_out_of_values() {
    let mut fields = serde_json::Map::new();
    fields.insert("status".to_string(), Value::from(176u8));
    fields.insert("data1".to_string(), Value::from(1u8));
    fields.insert("action".to_string(), Value::from("prev"));
    let value = Value::from(vec![Value::from(fields), Value::Null]);
    assert_eq!(bindings_from_value(&value), vec![([176, 1], Action::Prev)]);
    assert!(bindings_from_value(&Value::Null).is_empty());
}

#[test]
fn what_is_saved_depends_on_what_is_open() {
    let mut app = App::new();
    let mut bindings = MidiBindings::default();
    bindings.learn([0x90, 60], Action::Stop);
    let entries = app.save(&bindings, "-3".to_string());
    let keys: Vec<&str> = entries.iter().map(|e| e.0).collect();
    assert_eq!(keys, vec!["midi_bindings", "volume_db"]);
    assert_eq!(entries[1].1, "-3");

    app.save_result(PathBuf::from("/sets/live.json"), Ok(()));
    app.connect_port("Pedal", ConnectOutcome::Connected);
    let entries = app.save(&bindings, "0".to_string());
    let keys: Vec<&str> = entries.iter().map(|e| e.0).collect();
    assert_eq!(keys, vec![LAST_PLAYLIST_KEY, MIDI_BINDINGS_KEY, MIDI_PORT_KEY, VOLUME_KEY]);
    assert_eq!(entries[0].1, "/sets/live.json");
    assert_eq!(bindings_from_json(&entries[1].1), bindings.map);
    assert_eq!(entries[2].1, "Pedal");
    assert_eq!(entries[3].1, "0");
}

#[test]
fn what_was_saved_is_restored() {
    let mut bindings = MidiBindings::default();
    bindings.learn([0x90, 60], Action::Stop);
    let text = bindings_to_json(&bindings.map);

    let mut app = App::new();
    let mut restored = MidiBindings::default();
    let port = app.restore(
        &mut restored,
        Found {
            last_playlist: Some("/sets/live.json".to_string()),
            playlist_read: Some(Ok("[\"/music/a.mp3\"]".to_string())),
            midi_bindings: Some(text),
            midi_port: Some("Pedal".to_string()),
            ports: Some(vec![None, Some("Pedal".to_string())]),
        },
    );
    assert_eq!(port, Some("Pedal".to_string()));
    assert_eq!(restored.map, bindings.map);
    assert_eq!(app.midi_ports, vec!["<unknown>", "Pedal"]);
    assert_eq!(app.current_playlist, Some(PathBuf::from("/sets/live.json")));
    assert_eq!(app.tracks.len(), 1);
    assert_eq!(app.connected_port, None);
}

#[test]
fn what_is_gone_is_not_restored() {
    let mut app = App::new();
    let mut bindings = MidiBindings::default();
    bindings.learn([0x90, 1], Action::Next);
    let port = app.restore(
        &mut bindings,
        Found {
            last_playlist: Some("/sets/live.json".to_string()),
            playlist_read: None,
            midi_bindings: None,
            midi_port: Some("Pedal".to_string()),
            ports: None,
        },
    );
    assert_eq!(port, None);
    assert_eq!(app.current_playlist, None);
    assert_eq!(app.status, "");
    assert!(app.midi_ports.is_empty());
    assert_eq!(bindings.map, vec![([0x90, 1], Action::Next)]);
}

#[test]
fn ports_are_left_alone_without_a_stored_one() {
    let mut app = App::new();
    app.refresh_ports(Some(vec![Some("Keys".to_string())]));
    let port = app.restore(
        &mut MidiBindings::default(),
        Found {
            last_playlist: None,
            playlist_read: None,
            midi_bindings: Some("nonsense".to_string()),
            midi_port: None,
            ports: None,
        },
    );
    assert_eq!(port, None);
    assert_eq!(app.midi_ports, vec!["Keys"]);
}

#[test]
fn a_list_of_fields_is_read_in_order() {
    let fields = |status, action: &str| Fields {
        status: Some(status),
        data1: Some(1),
        action: Some(action.to_string()),
    };
    let list = vec![
        fields(144, "prev"),
        fields(145, "fly"),
        Fields { status: None, data1: Some(1), action: Some("stop".to_string()) },
        fields(401, "stop"),
    ];
    assert_eq!(
        bindings_from_list(&list),
        vec![([144, 1], Action::Prev), ([145, 1], Action::Stop)]
    );
    assert!(bindings_from_list(&vec![]).is_empty());
}
