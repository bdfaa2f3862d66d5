//! Playlists: JSON arrays of audio file paths.
use std::path::PathBuf;
use vstd::prelude::*;
use vstd::string::*;

use crate::app::{new_track, App};
#[allow(unused_imports)]
use crate::app::{listed, track_of, tracks_of, Track, TrackView};
use crate::json;
#[allow(unused_imports)]
use crate::json::{parsed_list, spelled_list, texts};
use crate::paths;
#[allow(unused_imports)]
use crate::paths::{is_exact, path_file_name, path_from, path_shown, path_text};
use crate::text::decimal_text;
#[allow(unused_imports)]
use crate::text::decimal;

verus! {

/// The text of each track's path.
pub open spec fn path_texts(tracks: Seq<Track>) -> Seq<Seq<char>> {
    tracks.map_values(|t: Track| path_text(t.path))
}

/// The paths that texts denote, one by one.
pub open spec fn paths_from(list: Seq<Seq<char>>) -> Seq<PathBuf> {
    list.map_values(|text: Seq<char>| path_from(text))
}

/// Whether `text` is how these tracks are saved: it spells the texts of their
/// paths, reading it gives those texts, and each that is exact denotes its path.
pub open spec fn saves_as(tracks: Seq<Track>, text: Seq<char>) -> bool {
    &&& text == spelled_list(path_texts(tracks))
    &&& parsed_list(text) is Ok
    &&& parsed_list(text)->Ok_0 == path_texts(tracks)
    &&& forall|i: int|
        0 <= i < tracks.len() && is_exact(path_text((#[trigger] tracks[i]).path)) ==> path_from(
            path_text(tracks[i].path),
        ) == tracks[i].path
}

/// The loaded index once the list is replaced by `paths`: it is kept where the
/// new list holds the same path in that place. Otherwise what is loaded is no
/// longer addressable by index.
pub open spec fn kept_index(app: App, paths: Seq<PathBuf>) -> Option<usize> {
    match app.playing_index {
        Some(p) if p < app.tracks@.len() && p < paths.len() && app.tracks@[p as int].path
            == paths[p as int] => Some(p),
        _ => None,
    }
}

/// Whether `after` is `before` with its track list replaced by `paths`, the
/// first of which is selected.
pub open spec fn tracks_replaced(before: App, after: App, paths: Seq<PathBuf>) -> bool {
    &&& listed(after.tracks@) == tracks_of(paths)
    &&& after.selected == if paths.len() == 0 {
        None
    } else {
        Some(0usize)
    }
    &&& after == (App {
        tracks: after.tracks,
        selected: after.selected,
        playing_index: kept_index(before, paths),
        ..before
    })
}

/// Whether `after` is `before` with another status.
pub open spec fn status_set(before: App, after: App, status: Seq<char>) -> bool {
    &&& after.status@ == status
    &&& after == (App { status: after.status, ..before })
}

/// Whether `after` is `before` with the playlist `list` loaded from `path`.
pub open spec fn playlist_loaded(
    before: App,
    after: App,
    path: PathBuf,
    list: Seq<Seq<char>>,
) -> bool {
    &&& listed(after.tracks@) == tracks_of(paths_from(list))
    &&& path_texts(after.tracks@) == list
    &&& after.selected == if list.len() == 0 {
        None
    } else {
        Some(0usize)
    }
    &&& after.current_playlist == Some(path)
    &&& after.status@ == "Loaded "@ + decimal(list.len()) + " track(s) from "@ + path_shown(path)
    &&& after == (App {
        tracks: after.tracks,
        selected: after.selected,
        current_playlist: after.current_playlist,
        playing_index: kept_index(before, paths_from(list)),
        status: after.status,
        ..before
    })
}

/// Whether `after` is what reading the playlist file at `path`, which holds
/// `text`, makes of `before`.
pub open spec fn playlist_read(before: App, after: App, path: PathBuf, text: Seq<char>) -> bool {
    match parsed_list(text) {
        Ok(list) => playlist_loaded(before, after, path, list),
        Err(complaint) => status_set(before, after, "Invalid playlist file: "@ + complaint),
    }
}

/// Whether `after` is what opening the playlist at `path` makes of `before`,
/// given what reading that file led to.
pub open spec fn playlist_opened(
    before: App,
    after: App,
    path: PathBuf,
    read: Result<String, String>,
) -> bool {
    match read {
        Ok(text) => playlist_read(before, after, path, text@),
        Err(e) => status_set(before, after, "Open failed: "@ + e@),
    }
}

impl App {
    /// Replaces the track list with `paths`, rebuilding display names. The loaded
    /// track keeps playing; its index is kept only where it stands for that track
    /// in the new list too.
    pub fn set_tracks_from_paths(&mut self, paths: Vec<PathBuf>)
        requires
            old(self).wf(),
        ensures
            final(self).wf(),
            old(self).in_step() ==> final(self).in_step(),
            tracks_replaced(*old(self), *final(self), paths@),
    {
        let ghost all = paths@;
        let kept = match self.playing_index {
            Some(p) if p < self.tracks.len() && p < paths.len() && paths::same_path(
                &self.tracks[p].path,
                &paths[p],
            ) => Some(p),
            _ => None,
        };
        let mut tracks: Vec<Track> = Vec::new();
        for path in iter: paths
            invariant
                iter.seq() == all,
                listed(tracks@) == tracks_of(all.take(iter.index())),
        {
            let ghost i = iter.index();
            let ghost so_far = listed(tracks@);
            tracks.push(new_track(path));
            assert(listed(tracks@) =~= so_far.push(track_of(path)));
            assert(tracks_of(all.take(i + 1)) =~= tracks_of(all.take(i)).push(track_of(path)));
        }
        assert(all.take(all.len() as int) =~= all);
        assert(tracks@.len() == listed(tracks@).len());
        assert forall|i: int| 0 <= i < tracks@.len() implies (#[trigger] tracks@[i])@ == track_of(
            tracks@[i].path,
        ) by {
            assert(listed(tracks@)[i] == tracks_of(all)[i]);
        }
        proof {
            if kept is Some {
                let p = kept->0 as int;
                assert(self.tracks@[p]@ == track_of(all[p]));
                assert(listed(tracks@)[p] == tracks_of(all)[p]);
                assert(tracks@[p]@ == track_of(all[p]));
            }
        }
        self.selected = if tracks.is_empty() {
            None
        } else {
            Some(0)
        };
        self.tracks = tracks;
        self.playing_index = kept;
    }

    /// Starts a new, empty playlist (does not touch playback). The loaded track is
    /// no longer addressable by index.
    pub fn new_playlist(&mut self)
        requires
            old(self).wf(),
        ensures
            final(self).wf(),
            old(self).in_step() ==> final(self).in_step(),
            final(self).tracks@ == Seq::<Track>::empty(),
            final(self).status@ == "New playlist"@,
            *final(self) == (App {
                tracks: final(self).tracks,
                selected: None,
                current_playlist: None,
                playing_index: None,
                status: final(self).status,
                ..*old(self)
            }),
    {
        self.tracks.clear();
        self.selected = None;
        self.current_playlist = None;
        self.playing_index = None;
        self.status = "New playlist".to_owned();
    }

    /// The file name that is offered for saving the playlist.
    pub fn default_playlist_name(&self) -> (r: String)
        ensures
            r@ == match self.current_playlist {
                Some(path) => match path_file_name(path) {
                    Some(name) => name,
                    None => "playlist.json"@,
                },
                None => "playlist.json"@,
            },
    {
        if let Some(path) = &self.current_playlist {
            if let Some(name) = paths::file_name(path) {
                return name;
            }
        }
        "playlist.json".to_owned()
    }

    /// The playlist as it is saved: a JSON array of the paths of its tracks.
    /// Reading the text gives the texts of the paths again.
    pub fn playlist_json(&self) -> (r: Result<String, String>)
        ensures
            r is Ok,
            saves_as(self.tracks@, r->Ok_0@),
    {
        let mut list: Vec<String> = Vec::new();
        for i in 0..self.tracks.len()
            invariant
                list@.len() == i,
                forall|j: int|
                    0 <= j < i ==> (#[trigger] list@[j])@ == path_text(self.tracks@[j].path),
                forall|j: int|
                    0 <= j < i && is_exact(path_text((#[trigger] self.tracks@[j]).path))
                        ==> path_from(path_text(self.tracks@[j].path)) == self.tracks@[j].path,
        {
            list.push(paths::text_of(&self.tracks[i].path));
        }
        assert(texts(list@) =~= path_texts(self.tracks@));
        match json::spell_list(&list) {
            Ok(text) => Ok(text),
            Err(e) => Err(
                "Failed to serialize playlist: ".to_owned().concat(json::message(&e).as_str()),
            ),
        }
    }

    /// Takes the outcome of writing the playlist to `path`.
    pub fn save_result(&mut self, path: PathBuf, written: Result<(), String>)
        requires
            old(self).wf(),
        ensures
            final(self).wf(),
            old(self).in_step() ==> final(self).in_step(),
            match written {
                Ok(_) => {
                    &&& final(self).status@ == "Saved playlist: "@ + path_shown(path)
                    &&& *final(self) == (App {
                        current_playlist: Some(path),
                        status: final(self).status,
                        ..*old(self)
                    })
                },
                Err(e) => status_set(*old(self), *final(self), "Save failed: "@ + e@),
            },
    {
        match written {
            Ok(_) => {
                self.status = "Saved playlist: ".to_owned().concat(paths::shown(&path).as_str());
                self.current_playlist = Some(path);
            },
            Err(e) => {
                self.status = "Save failed: ".to_owned().concat(e.as_str());
            },
        }
    }

    /// Loads a playlist (a JSON array of audio file paths) from `path`, given
    /// what reading that file led to. What cannot be read, or is no such array,
    /// changes nothing but the status.
    pub fn load_playlist(&mut self, path: PathBuf, read: Result<String, String>)
        requires
            old(self).wf(),
        ensures
            final(self).wf(),
            old(self).in_step() ==> final(self).in_step(),
            playlist_opened(*old(self), *final(self), path, read),
    {
        let text = match read {
            Ok(text) => text,
            Err(e) => {
                self.status = "Open failed: ".to_owned().concat(e.as_str());
                return;
            },
        };
        let list = match json::parse_list(text.as_str()) {
            Ok(list) => Ok(list),
            Err(e) => Err(json::message(&e)),
        };
        self.load_list(path, list);
    }

    /// Takes over the paths that a playlist file at `path` lists, or the complaint
    /// about that file.
    pub fn load_list(&mut self, path: PathBuf, list: Result<Vec<String>, String>)
        requires
            old(self).wf(),
        ensures
            final(self).wf(),
            old(self).in_step() ==> final(self).in_step(),
            match list {
                Ok(list) => playlist_loaded(*old(self), *final(self), path, texts(list@)),
                Err(complaint) => status_set(
                    *old(self),
                    *final(self),
                    "Invalid playlist file: "@ + complaint@,
                ),
            },
    {
        let list = match list {
            Ok(list) => list,
            Err(complaint) => {
                self.status = "Invalid playlist file: ".to_owned().concat(complaint.as_str());
                return;
            },
        };
        let ghost all = list@;
        let mut paths: Vec<PathBuf> = Vec::new();
        for text in iter: list
            invariant
                iter.seq() == all,
                paths@.len() == iter.index(),
                forall|j: int|
                    0 <= j < paths@.len() ==> #[trigger] paths@[j] == path_from(all[j]@)
                        && path_text(paths@[j]) == all[j]@,
        {
            paths.push(paths::from_text(text));
        }
        let ghost given = paths@;
        self.set_tracks_from_paths(paths);
        proof {
            let now = self.tracks@;
            assert(now.len() == listed(now).len() && given.len() == tracks_of(given).len());
            assert forall|j: int| 0 <= j < now.len() implies (#[trigger] now[j])@ == track_of(
                given[j],
            ) by {
                assert(listed(now)[j] == tracks_of(given)[j]);
            }
            assert(path_texts(now) =~= texts(all));
            assert(given =~= paths_from(texts(all)));
        }
        self.status = "Loaded ".to_owned().concat(decimal_text(self.tracks.len()).as_str()).concat(
            " track(s) from ",
        ).concat(paths::shown(&path).as_str());
        self.current_playlist = Some(path);
    }
}

/// Loading what was saved gives the tracks again: the texts of their paths, in
/// their order, with the first one selected.
pub proof fn lemma_save_then_load(
    saved: App,
    text: Seq<char>,
    path: PathBuf,
    before: App,
    after: App,
)
    requires
        saves_as(saved.tracks@, text),
        playlist_read(before, after, path, text),
    ensures
        path_texts(after.tracks@) == path_texts(saved.tracks@),
        after.tracks@.len() == saved.tracks@.len(),
        saved.tracks@.len() > 0 ==> after.selected == Some(0usize),
        after.current_playlist == Some(path),
{
    assert(path_texts(after.tracks@).len() == after.tracks@.len());
    assert(path_texts(saved.tracks@).len() == saved.tracks@.len());
}

/// Loading what was saved gives the very same tracks, paths and names, where
/// each path is the one that its text denotes.
pub proof fn lemma_save_then_load_exact(
    saved: App,
    text: Seq<char>,
    path: PathBuf,
    before: App,
    after: App,
)
    requires
        saved.wf(),
        forall|i: int|
            0 <= i < saved.tracks@.len() ==> path_from(
                path_text((#[trigger] saved.tracks@[i]).path),
            ) == saved.tracks@[i].path,
        saves_as(saved.tracks@, text),
        playlist_read(before, after, path, text),
    ensures
        listed(after.tracks@) == listed(saved.tracks@),
{
    let list = path_texts(saved.tracks@);
    assert(tracks_of(paths_from(list)) =~= listed(saved.tracks@)) by {
        assert forall|i: int| 0 <= i < saved.tracks@.len() implies #[trigger] tracks_of(
            paths_from(list),
        )[i] == listed(saved.tracks@)[i] by {
            let track = saved.tracks@[i];
            assert(list[i] == path_text(track.path));
            assert(path_from(path_text(track.path)) == track.path);
            assert(track@ == track_of(track.path));
        }
    }
}

/// Opening the list again that is open keeps the loaded index: what was paused
/// can still be resumed.
pub proof fn lemma_reload_keeps_loaded(app: App, text: Seq<char>, path: PathBuf, after: App)
    requires
        app.wf(),
        forall|i: int|
            0 <= i < app.tracks@.len() ==> path_from(path_text((#[trigger] app.tracks@[i]).path))
                == app.tracks@[i].path,
        app.playing_index matches Some(p) ==> p < app.tracks@.len(),
        saves_as(app.tracks@, text),
        playlist_read(app, after, path, text),
    ensures
        after.playing_index == app.playing_index,
        listed(after.tracks@) == listed(app.tracks@),
{
    lemma_save_then_load_exact(app, text, path, app, after);
    if app.playing_index is Some {
        let p = app.playing_index->0 as int;
        assert(path_texts(app.tracks@)[p] == path_text(app.tracks@[p].path));
        assert(paths_from(path_texts(app.tracks@))[p] == app.tracks@[p].path);
    }
}

} // verus!
