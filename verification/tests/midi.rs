use clickinaresi::action::Action;
use clickinaresi::midi::{fmt_key, handle_midi, MidiBindings, MidiOutcome};

#[test]
fn keys_and_labels_of_actions() {
    let keys: Vec<&str> = Action::ALL.iter().map(|a| a.key()).collect();
    assert_eq!(keys, vec!["play_pause", "stop", "next", "prev"]);
    let labels: Vec<&str> = Action::ALL.iter().map(|a| a.label()).collect();
    assert_eq!(labels, vec!["Play / Pause", "Stop", "Next", "Previous"]);
}

#[test]
fn keys_read_back_as_their_actions() {
    for action in Action::ALL {
        assert_eq!(Action::from_key(action.key()), Some(action));
    }
    assert_eq!(Action::from_key("Stop"), None);
    assert_eq!(Action::from_key(""), None);
    assert_eq!(Action::from_key("stop "), None);
}

#[test]
fn learning_captures_the_next_trigger() {
    let mut b = MidiBindings::default();
    b.toggle_learning(Action::Next);
    assert_eq!(b.learning, Some(Action::Next));
    assert_eq!(handle_midi(&[0x90, 60, 100], &mut b), MidiOutcome::Learned);
    assert_eq!(b.learning, None);
    assert_eq!(b.map, vec![([0x90, 60], Action::Next)]);
    assert_eq!(b.binding_for(Action::Next), Some([0x90, 60]));
    assert_eq!(handle_midi(&[0x90, 60, 1], &mut b), MidiOutcome::Trigger(Action::Next));
}

#[test]
fn velocity_and_releases_are_ignored() {
    let mut b = MidiBindings::default();
    b.learn([0x91, 40], Action::Stop);
    b.learn([0xB3, 7], Action::Prev);
    assert_eq!(handle_midi(&[0x91, 40, 1], &mut b), MidiOutcome::Trigger(Action::Stop));
    assert_eq!(handle_midi(&[0x91, 40, 127], &mut b), MidiOutcome::Trigger(Action::Stop));
    assert_eq!(handle_midi(&[0xB3, 7, 64], &mut b), MidiOutcome::Trigger(Action::Prev));
    assert_eq!(handle_midi(&[0x91, 40, 0], &mut b), MidiOutcome::Ignored);
    assert_eq!(handle_midi(&[0x81, 40, 64], &mut b), MidiOutcome::Ignored);
    assert_eq!(handle_midi(&[0xB3, 7, 0], &mut b), MidiOutcome::Ignored);
    assert_eq!(handle_midi(&[0x90, 40, 64], &mut b), MidiOutcome::Ignored);
    assert_eq!(handle_midi(&[0x91, 40], &mut b), MidiOutcome::Ignored);
    assert_eq!(handle_midi(&[], &mut b), MidiOutcome::Ignored);
}

#[test]
fn a_release_does_not_end_learning() {
    let mut b = MidiBindings::default();
    b.toggle_learning(Action::Stop);
    assert_eq!(handle_midi(&[0x80, 60, 64], &mut b), MidiOutcome::Ignored);
    assert_eq!(b.learning, Some(Action::Stop));
    assert!(b.map.is_empty());
}

#[test]
fn learning_keeps_bindings_one_to_one() {
    let mut b = MidiBindings::default();
    b.learn([0x90, 1], Action::PlayPause);
    b.learn([0x90, 2], Action::Stop);
    b.learn([0x90, 3], Action::Next);
    // The key of one action, for another action that has a key already.
    b.learn([0x90, 1], Action::Next);
    assert_eq!(b.map, vec![([0x90, 2], Action::Stop), ([0x90, 1], Action::Next)]);
    assert_eq!(b.binding_for(Action::PlayPause), None);
    assert_eq!(b.action_for([0x90, 3]), None);
    assert_eq!(b.action_for([0x90, 2]), Some(Action::Stop));
}

#[test]
fn clearing_removes_the_bindings_of_one_action() {
    let mut b = MidiBindings::default();
    b.learn([0x90, 1], Action::PlayPause);
    b.learn([0x90, 2], Action::Stop);
    b.clear(Action::PlayPause);
    assert_eq!(b.binding_for(Action::PlayPause), None);
    assert_eq!(b.binding_for(Action::Stop), Some([0x90, 2]));
    b.clear(Action::PlayPause);
    assert_eq!(b.map.len(), 1);
}

#[test]
fn the_first_of_several_bindings_is_found() {
    let mut b = MidiBindings::default();
    b.map = vec![
        ([0x90, 1], Action::Stop),
        ([0x90, 1], Action::Next),
        ([0x90, 2], Action::Stop),
    ];
    assert_eq!(b.binding_for(Action::Stop), Some([0x90, 1]));
    assert_eq!(b.action_for([0x90, 1]), Some(Action::Stop));
    b.clear(Action::Stop);
    assert_eq!(b.map, vec![([0x90, 1], Action::Next)]);
}

#[test]
fn the_learn_button_toggles() {
    let mut b = MidiBindings::default();
    b.toggle_learning(Action::Stop);
    b.toggle_learning(Action::Next);
    assert_eq!(b.learning, Some(Action::Next));
    b.toggle_learning(Action::Next);
    assert_eq!(b.learning, None);
}

#[test]
fn keys_are_shown_by_kind_number_and_channel() {
    assert_eq!(fmt_key([0x90, 60]), "Note 60 (ch 1)");
    assert_eq!(fmt_key([0x9F, 0]), "Note 0 (ch 16)");
    assert_eq!(fmt_key([0xB9, 127]), "CC 127 (ch 10)");
    assert_eq!(fmt_key([0x80, 255]), "? 255 (ch 1)");
}

#[test]
fn bindings_are_shown_for_configuration() {
    let mut b = MidiBindings::default();
    b.learn([0xB0, 64], Action::Stop);
    assert_eq!(b.binding_text(None, Action::Stop), "CC 64 (ch 1)");
    assert_eq!(b.binding_text(None, Action::Next), "unassigned");
    assert_eq!(b.binding_text(Some(Action::Stop), Action::Stop), "← listening…");
    assert_eq!(b.binding_text(Some(Action::Next), Action::Stop), "CC 64 (ch 1)");
}
