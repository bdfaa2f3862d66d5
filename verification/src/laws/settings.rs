//! Laws of what is kept between launches.
use vstd::prelude::*;

use crate::app::App;
#[allow(unused_imports)]
use crate::app::{listed, track_of, tracks_of};
#[allow(unused_imports)]
use crate::json::{parsed_list, spelled};
use crate::midi::{Binding, MidiBindings};
#[allow(unused_imports)]
use crate::paths::{path_file_name, path_from, path_shown, path_text};
#[allow(unused_imports)]
use crate::playlist::paths_from;
use crate::settings::{Entry, Found};
#[allow(unused_imports)]
use crate::settings::{entry_texts, saved_entries};
use crate::stored::bindings_from_json;
#[allow(unused_imports)]
use crate::stored::records_of;
#[allow(unused_imports)]
use crate::text::decimal;

verus! {

/// What is saved are, in this order, the path of the open playlist if there is
/// one, the bindings, the connected port if there is one, and the volume, each
/// under its own key, and nothing else.
pub proof fn lemma_saved(app: App, bindings: MidiBindings, volume: String, r: Vec<Entry>)
    requires
        call_ensures(App::save, (&app, &bindings, volume), r),
    ensures
        ({
            let first: int = if app.current_playlist is Some {
                1
            } else {
                0
            };
            let second: int = if app.connected_port is Some {
                1
            } else {
                0
            };
            &&& r@.len() == first + second + 2
            &&& app.current_playlist matches Some(path) ==> r@[0].0@ == "last_playlist"@
                && r@[0].1@ == path_text(path)
            &&& r@[first].0@ == "midi_bindings"@
            &&& r@[first].1@ == spelled(records_of(bindings.map@))
            &&& app.connected_port matches Some(port) ==> r@[first + 1].0@ == "midi_port"@ && r@[
            first + 1].1@ == port@
            &&& r@.last().0@ == "volume_db"@
            &&& r@.last().1@ == volume@
        }),
{
    let entries = entry_texts(r@);
    assert(entries.len() == r@.len());
    assert forall|i: int| 0 <= i < r@.len() implies #[trigger] entries[i] == (r@[i].0@, r@[i].1@) by {}
    let saved = saved_entries(app, bindings.map@, volume@);
    assert(entries == saved);
    if app.current_playlist is Some && app.connected_port is Some {
        assert(saved.len() == 4);
        assert(entries[0] == saved[0] && entries[1] == saved[1] && entries[2] == saved[2]
            && entries[3] == saved[3]);
    } else if app.current_playlist is None && app.connected_port is None {
        assert(saved.len() == 2);
        assert(entries[0] == saved[0] && entries[1] == saved[1]);
    } else {
        assert(saved.len() == 3);
        assert(entries[0] == saved[0] && entries[1] == saved[1] && entries[2] == saved[2]);
    }
}

/// The bindings that were saved are read again as they were.
pub proof fn lemma_saved_bindings_read_again(
    app: App,
    bindings: MidiBindings,
    volume: String,
    entries: Vec<Entry>,
    i: int,
    text: &str,
    r: Vec<Binding>,
)
    requires
        call_ensures(App::save, (&app, &bindings, volume), entries),
        call_ensures(bindings_from_json, (text,), r),
        0 <= i < entries@.len(),
        entries@[i].0@ == "midi_bindings"@,
        text@ == entries@[i].1@,
    ensures
        r@ == bindings.map@,
{
    lemma_saved(app, bindings, volume, entries);
    reveal_strlit("last_playlist");
    reveal_strlit("midi_bindings");
    reveal_strlit("midi_port");
    reveal_strlit("volume_db");
    assert("midi_bindings"@.len() == 13 && "last_playlist"@.len() == 13);
    assert("midi_bindings"@[0] == 'm' && "last_playlist"@[0] == 'l');
    assert("midi_port"@.len() == 9 && "volume_db"@.len() == 9);
}

/// On launch the bindings are those that the stored text holds, and stay where
/// none is stored; what is being learned stays.
pub proof fn lemma_restored_bindings(
    app: &mut App,
    bindings: &mut MidiBindings,
    found: Found,
    port: Option<String>,
    text: &str,
    read: Vec<Binding>,
)
    requires
        call_ensures(App::restore, (app, bindings, found), port),
        call_ensures(bindings_from_json, (text,), read),
    ensures
        found.midi_bindings is None ==> final(bindings).map@ == old(bindings).map@,
        found.midi_bindings is Some && found.midi_bindings->0@ == text@ ==> final(bindings).map@
            == read@,
        final(bindings).learning == old(bindings).learning,
{
}

/// On launch the stored port is to be connected to exactly where a port of that
/// name was found; without a stored port the list of ports stays.
pub proof fn lemma_restored_port(
    app: &mut App,
    bindings: &mut MidiBindings,
    found: Found,
    r: Option<String>,
)
    requires
        call_ensures(App::restore, (app, bindings, found), r),
    ensures
        found.midi_port is None ==> r is None && final(app).midi_ports == old(app).midi_ports,
        found.midi_port is Some && found.ports is None ==> r is None
            && final(app).midi_ports@.len() == 0,
        found.midi_port matches Some(port) ==> (found.ports matches Some(ports) ==> {
            &&& final(app).midi_ports@.len() == ports@.len()
            &&& forall|i: int|
                0 <= i < ports@.len() ==> {
                    &&& ports@[i] is Some ==> (#[trigger] final(app).midi_ports@[i])@
                        == ports@[i]->0@
                    &&& ports@[i] is None ==> final(app).midi_ports@[i]@ == "<unknown>"@
                }
            &&& r == Some(port) <==> exists|i: int|
                0 <= i < ports@.len() && (#[trigger] final(app).midi_ports@[i])@ == port@
            &&& r is Some ==> r == Some(port)
        }),
{
}

/// On launch the last playlist is loaded where it was read: a track for every path
/// it lists, with the first selected. One that is gone or was not stored leaves
/// all but the ports as it is, and one that could not be read all but the ports
/// and the status.
pub proof fn lemma_restored_playlist(
    app: &mut App,
    bindings: &mut MidiBindings,
    found: Found,
    r: Option<String>,
)
    requires
        call_ensures(App::restore, (app, bindings, found), r),
    ensures
        found.last_playlist is None || found.playlist_read is None ==> *final(app) == (App {
            midi_ports: final(app).midi_ports,
            ..*old(app)
        }),
        found.last_playlist is Some && found.playlist_read is Some && found.playlist_read->0 is Ok
            && parsed_list(found.playlist_read->0->Ok_0@) is Ok ==> ({
            let path = path_from(found.last_playlist->0@);
            let list = parsed_list(found.playlist_read->0->Ok_0@)->Ok_0;
            &&& final(app).tracks@.len() == list.len()
            &&& forall|i: int|
                0 <= i < list.len() ==> {
                    &&& (#[trigger] final(app).tracks@[i]).path == path_from(list[i])
                    &&& path_file_name(path_from(list[i])) matches Some(name) ==> final(app).tracks@[i].name@ == name
                    &&& path_file_name(path_from(list[i])) is None ==> final(app).tracks@[i].name@
                        == path_shown(path_from(list[i]))
                }
            &&& list.len() > 0 ==> final(app).selected == Some(0usize)
            &&& list.len() == 0 ==> final(app).selected is None
            &&& old(app).playing_index is None ==> final(app).playing_index is None
            &&& final(app).current_playlist == Some(path)
            &&& final(app).status@ == "Loaded "@ + decimal(list.len()) + " track(s) from "@
                + path_shown(path)
        }),
        found.last_playlist is Some && found.playlist_read is Some && found.playlist_read->0 is Ok
            && parsed_list(found.playlist_read->0->Ok_0@) is Err ==> final(app).status@
            == "Invalid playlist file: "@ + parsed_list(found.playlist_read->0->Ok_0@)->Err_0
            && *final(app) == (App {
            midi_ports: final(app).midi_ports,
            status: final(app).status,
            ..*old(app)
        }),
        found.last_playlist is Some && found.playlist_read is Some && found.playlist_read->0 is Err
            ==> final(app).status@ == "Open failed: "@ + found.playlist_read->0->Err_0@
            && *final(app) == (App {
            midi_ports: final(app).midi_ports,
            status: final(app).status,
            ..*old(app)
        }),
        final(app).player == old(app).player,
        final(app).connected_port == old(app).connected_port,
        final(app).show_config == old(app).show_config,
        final(app).did_maximize == old(app).did_maximize,
{
    if found.last_playlist is Some && found.playlist_read is Some && found.playlist_read->0 is Ok
        && parsed_list(found.playlist_read->0->Ok_0@) is Ok {
        let list = parsed_list(found.playlist_read->0->Ok_0@)->Ok_0;
        let paths = paths_from(list);
        let tracks = final(app).tracks@;
        assert(listed(tracks) == tracks_of(paths));
        assert(listed(tracks).len() == tracks.len());
        assert(tracks_of(paths).len() == list.len());
        assert forall|i: int| 0 <= i < list.len() implies {
            &&& (#[trigger] tracks[i]).path == path_from(list[i])
            &&& path_file_name(path_from(list[i])) matches Some(name) ==> tracks[i].name@ == name
            &&& path_file_name(path_from(list[i])) is None ==> tracks[i].name@ == path_shown(
                path_from(list[i]),
            )
        } by {
            assert(listed(tracks)[i] == tracks[i]@);
            assert(tracks_of(paths)[i] == track_of(path_from(list[i])));
        }
    }
}

} // verus!
