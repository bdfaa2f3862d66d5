//! Laws of playlists.
use std::path::PathBuf;
use vstd::prelude::*;

use crate::app::{App, Track};
#[allow(unused_imports)]
use crate::app::{listed, track_of, tracks_of};
#[allow(unused_imports)]
use crate::json::{parsed_list, spelled_list, texts};
#[allow(unused_imports)]
use crate::paths::{path_file_name, path_from, path_shown, path_text, track_name};
#[allow(unused_imports)]
use crate::playlist::{path_texts, paths_from};
#[allow(unused_imports)]
use crate::text::decimal;

verus! {

/// The tracks of a list that was made of paths, one by one.
proof fn lemma_tracks_one_by_one(tracks: Seq<Track>, paths: Seq<PathBuf>)
    requires
        listed(tracks) == tracks_of(paths),
    ensures
        tracks.len() == paths.len(),
        forall|i: int|
            0 <= i < tracks.len() ==> (#[trigger] tracks[i]).path == paths[i] && tracks[i].name@
                == track_name(paths[i]),
{
    assert(listed(tracks).len() == tracks.len());
    assert(tracks_of(paths).len() == paths.len());
    assert forall|i: int| 0 <= i < tracks.len() implies (#[trigger] tracks[i]).path == paths[i]
        && tracks[i].name@ == track_name(paths[i]) by {
        assert(listed(tracks)[i] == tracks[i]@);
        assert(tracks_of(paths)[i] == track_of(paths[i]));
        assert(tracks[i]@ == track_of(paths[i]));
    }
}

/// A replaced list holds a track for every path, playable or not, in their order,
/// each under its file name or else as it is shown. The first is selected,
/// whatever was. What plays plays on.
pub proof fn lemma_replaced_list(app: &mut App, paths: Vec<PathBuf>)
    requires
        call_ensures(App::set_tracks_from_paths, (app, paths), ()),
    ensures
        final(app).tracks@.len() == paths@.len(),
        forall|i: int|
            0 <= i < paths@.len() ==> {
                &&& (#[trigger] final(app).tracks@[i]).path == paths@[i]
                &&& path_file_name(paths@[i]) matches Some(name) ==> final(app).tracks@[i].name@
                    == name
                &&& path_file_name(paths@[i]) is None ==> final(app).tracks@[i].name@ == path_shown(
                    paths@[i],
                )
            },
        paths@.len() > 0 ==> final(app).selected == Some(0usize),
        paths@.len() == 0 ==> final(app).selected is None,
        *final(app) == (App {
            tracks: final(app).tracks,
            selected: final(app).selected,
            playing_index: final(app).playing_index,
            ..*old(app)
        }),
{
    lemma_tracks_one_by_one(final(app).tracks@, paths@);
}

/// A loaded index is kept exactly where the new list holds the same path in that
/// place.
pub proof fn lemma_replaced_list_loaded(app: &mut App, paths: Vec<PathBuf>)
    requires
        call_ensures(App::set_tracks_from_paths, (app, paths), ()),
    ensures
        old(app).playing_index is None ==> final(app).playing_index is None,
        old(app).playing_index matches Some(p) ==> p < old(app).tracks@.len() && p < paths@.len()
            && old(app).tracks@[p as int].path == paths@[p as int] ==> final(app).playing_index
            == Some(p),
        old(app).playing_index matches Some(p) ==> p >= old(app).tracks@.len() || p >= paths@.len()
            || old(app).tracks@[p as int].path != paths@[p as int] ==> final(app).playing_index is None,
{
}

/// A playlist begun anew has no tracks, no selection, no loaded index and no file;
/// what plays plays on, and nothing else changes.
pub proof fn lemma_begun_anew(app: &mut App)
    requires
        call_ensures(App::new_playlist, (app,), ()),
    ensures
        final(app).tracks@.len() == 0,
        final(app).selected is None,
        final(app).playing_index is None,
        final(app).current_playlist is None,
        final(app).status@ == "New playlist"@,
        final(app).player == old(app).player,
        final(app).midi_ports == old(app).midi_ports,
        final(app).connected_port == old(app).connected_port,
        final(app).show_config == old(app).show_config,
        final(app).did_maximize == old(app).did_maximize,
{
}

/// The name that is offered for saving is the file name of the open playlist,
/// and a fixed one where there is none.
pub proof fn lemma_offered_name(app: App, r: String)
    requires
        call_ensures(App::default_playlist_name, (&app,), r),
    ensures
        app.current_playlist is None ==> r@ == "playlist.json"@,
        app.current_playlist matches Some(path) ==> path_file_name(path) is None ==> r@
            == "playlist.json"@,
        app.current_playlist matches Some(path) ==> (path_file_name(path) matches Some(name) ==> r@
            == name),
{
}

/// A playlist is saved as the list of the texts of its paths, one for every track
/// and in their order, and reading what was saved gives that list.
pub proof fn lemma_saved_text(app: App, r: Result<String, String>)
    requires
        call_ensures(App::playlist_json, (&app,), r),
    ensures
        r is Ok,
        r->Ok_0@ == spelled_list(
            Seq::new(app.tracks@.len(), |i: int| path_text(app.tracks@[i].path)),
        ),
        parsed_list(r->Ok_0@) is Ok,
        parsed_list(r->Ok_0@)->Ok_0.len() == app.tracks@.len(),
        forall|i: int|
            0 <= i < app.tracks@.len() ==> #[trigger] parsed_list(r->Ok_0@)->Ok_0[i] == path_text(
                app.tracks@[i].path,
            ),
{
    assert(path_texts(app.tracks@) =~= Seq::new(
        app.tracks@.len(),
        |i: int| path_text(app.tracks@[i].path),
    ));
}

/// A playlist that was written is the open one; one that could not be written
/// leaves the open one, and the status tells why.
pub proof fn lemma_saving_told(app: &mut App, path: PathBuf, written: Result<(), String>)
    requires
        call_ensures(App::save_result, (app, path, written), ()),
    ensures
        written is Ok ==> final(app).current_playlist == Some(path) && final(app).status@
            == "Saved playlist: "@ + path_shown(path),
        written matches Err(e) ==> final(app).current_playlist == old(app).current_playlist
            && final(app).status@ == "Save failed: "@ + e@,
        *final(app) == (App {
            current_playlist: final(app).current_playlist,
            status: final(app).status,
            ..*old(app)
        }),
{
}

/// A playlist that was read is the open one: a track for every text it lists, in
/// their order, with the first selected, whatever was open before.
pub proof fn lemma_listed_paths_taken(
    app: &mut App,
    path: PathBuf,
    list: Result<Vec<String>, String>,
)
    requires
        call_ensures(App::load_list, (app, path, list), ()),
        list is Ok,
    ensures
        final(app).tracks@.len() == list->Ok_0@.len(),
        forall|i: int|
            0 <= i < list->Ok_0@.len() ==> {
                let listed_path = path_from(list->Ok_0@[i]@);
                &&& (#[trigger] final(app).tracks@[i]).path == listed_path
                &&& path_text(final(app).tracks@[i].path) == list->Ok_0@[i]@
                &&& path_file_name(listed_path) matches Some(name) ==> final(app).tracks@[i].name@
                    == name
                &&& path_file_name(listed_path) is None ==> final(app).tracks@[i].name@
                    == path_shown(listed_path)
            },
        list->Ok_0@.len() > 0 ==> final(app).selected == Some(0usize),
        list->Ok_0@.len() == 0 ==> final(app).selected is None,
        final(app).current_playlist == Some(path),
        final(app).status@ == "Loaded "@ + decimal(list->Ok_0@.len()) + " track(s) from "@
            + path_shown(path),
        *final(app) == (App {
            tracks: final(app).tracks,
            selected: final(app).selected,
            current_playlist: final(app).current_playlist,
            playing_index: final(app).playing_index,
            status: final(app).status,
            ..*old(app)
        }),
{
    let given = texts(list->Ok_0@);
    let paths = paths_from(given);
    lemma_tracks_one_by_one(final(app).tracks@, paths);
    assert(given.len() == list->Ok_0@.len());
    assert forall|i: int| 0 <= i < given.len() implies path_text(
        (#[trigger] final(app).tracks@[i]).path,
    ) == given[i] by {
        assert(path_texts(final(app).tracks@)[i] == given[i]);
    }
}

/// After a playlist was read the loaded index is kept exactly where the new list
/// names the same path in that place.
pub proof fn lemma_listed_paths_loaded(
    app: &mut App,
    path: PathBuf,
    list: Result<Vec<String>, String>,
)
    requires
        call_ensures(App::load_list, (app, path, list), ()),
        list is Ok,
    ensures
        old(app).playing_index is None ==> final(app).playing_index is None,
        old(app).playing_index matches Some(p) ==> p < old(app).tracks@.len()
            && p < list->Ok_0@.len() && old(app).tracks@[p as int].path == path_from(
            list->Ok_0@[p as int]@,
        ) ==> final(app).playing_index == Some(p),
        old(app).playing_index matches Some(p) ==> p >= old(app).tracks@.len()
            || p >= list->Ok_0@.len() || old(app).tracks@[p as int].path != path_from(
            list->Ok_0@[p as int]@,
        ) ==> final(app).playing_index is None,
{
    let paths = paths_from(texts(list->Ok_0@));
    assert(paths.len() == list->Ok_0@.len());
    assert(forall|i: int| 0 <= i < paths.len() ==> #[trigger] paths[i] == path_from(list->Ok_0@[i]@));
}

/// A file that is no playlist changes nothing but the status, which tells why.
pub proof fn lemma_no_playlist_told(
    app: &mut App,
    path: PathBuf,
    list: Result<Vec<String>, String>,
    complaint: String,
)
    requires
        call_ensures(App::load_list, (app, path, list), ()),
        list == Err::<Vec<String>, String>(complaint),
    ensures
        final(app).status@ == "Invalid playlist file: "@ + complaint@,
        *final(app) == (App { status: final(app).status, ..*old(app) }),
{
}

/// Loading a file gives what taking over the strings that its text lists gives;
/// a text that lists none, and a file that could not be read, change nothing but
/// the status, which tells why.
pub proof fn lemma_loaded_file(app: &mut App, path: PathBuf, read: Result<String, String>)
    requires
        call_ensures(App::load_playlist, (app, path, read), ()),
    ensures
        read matches Ok(text) ==> (parsed_list(text@) matches Ok(list) ==> {
            &&& final(app).tracks@.len() == list.len()
            &&& forall|i: int|
                0 <= i < list.len() ==> {
                    &&& (#[trigger] final(app).tracks@[i]).path == path_from(list[i])
                    &&& path_file_name(path_from(list[i])) matches Some(name) ==> final(app).tracks@[i].name@ == name
                    &&& path_file_name(path_from(list[i])) is None ==> final(app).tracks@[i].name@
                        == path_shown(path_from(list[i]))
                }
            &&& list.len() > 0 ==> final(app).selected == Some(0usize)
            &&& list.len() == 0 ==> final(app).selected is None
            &&& final(app).current_playlist == Some(path)
            &&& final(app).status@ == "Loaded "@ + decimal(list.len()) + " track(s) from "@
                + path_shown(path)
            &&& old(app).playing_index matches Some(p) ==> p < old(app).tracks@.len() && p
                < list.len() && old(app).tracks@[p as int].path == path_from(list[p as int])
                ==> final(app).playing_index == Some(p)
            &&& old(app).playing_index matches Some(p) ==> p >= old(app).tracks@.len() || p
                >= list.len() || old(app).tracks@[p as int].path != path_from(list[p as int])
                ==> final(app).playing_index is None
            &&& old(app).playing_index is None ==> final(app).playing_index is None
        }),
        read matches Ok(text) ==> (parsed_list(text@) matches Err(complaint) ==> final(app).status@
            == "Invalid playlist file: "@ + complaint && *final(app) == (App {
            status: final(app).status,
            ..*old(app)
        })),
        read matches Err(e) ==> final(app).status@ == "Open failed: "@ + e@ && *final(app) == (App {
            status: final(app).status,
            ..*old(app)
        }),
        final(app).player == old(app).player,
        final(app).midi_ports == old(app).midi_ports,
        final(app).connected_port == old(app).connected_port,
        final(app).show_config == old(app).show_config,
        final(app).did_maximize == old(app).did_maximize,
{
    if read is Ok && parsed_list(read->Ok_0@) is Ok {
        let list = parsed_list(read->Ok_0@)->Ok_0;
        let paths = paths_from(list);
        lemma_tracks_one_by_one(final(app).tracks@, paths);
        assert(paths.len() == list.len());
        assert(forall|i: int| 0 <= i < paths.len() ==> #[trigger] paths[i] == path_from(list[i]));
    }
}

} // verus!
