//! The state of the application, and how its track list is filled.
use std::path::PathBuf;
use vstd::prelude::*;
use vstd::string::*;

use crate::paths::{display_name, is_audio_file};
#[allow(unused_imports)]
use crate::paths::{is_audio, track_name};
use crate::player::Player;
use crate::text::decimal_text;
#[allow(unused_imports)]
use crate::text::decimal;

verus! {

/// A track of the list.
#[derive(Debug)]
pub struct Track {
    pub path: PathBuf,
    pub name: String,
}

/// A track: its path and the name under which it is listed.
pub ghost struct TrackView {
    pub path: PathBuf,
    pub name: Seq<char>,
}

impl View for Track {
    type V = TrackView;

    open spec fn view(&self) -> TrackView {
        TrackView { path: self.path, name: self.name@ }
    }
}

/// The application, apart from its window, its audio output and its MIDI
/// connection.
#[derive(Debug)]
pub struct App {
    pub tracks: Vec<Track>,
    pub selected: Option<usize>,
    pub player: Player,
    /// Path of the currently-open playlist file, if any. Persisted so it can be
    /// reloaded on the next launch.
    pub current_playlist: Option<PathBuf>,
    pub show_config: bool,
    pub midi_ports: Vec<String>,
    pub connected_port: Option<String>,
    /// Index of the track currently loaded into the player (playing or paused),
    /// used to decide whether play/pause should resume or start the selection.
    pub playing_index: Option<usize>,
    /// Whether the one-time "maximize" command has been sent.
    pub did_maximize: bool,
    pub status: String,
}

/// The tracks of a list, by path and name.
pub open spec fn listed(tracks: Seq<Track>) -> Seq<TrackView> {
    tracks.map_values(|t: Track| t@)
}

/// How a path is listed.
pub open spec fn track_of(path: PathBuf) -> TrackView {
    TrackView { path, name: track_name(path) }
}

/// How paths are listed, one by one.
pub open spec fn tracks_of(paths: Seq<PathBuf>) -> Seq<TrackView> {
    paths.map_values(|p: PathBuf| track_of(p))
}

/// Whether every track is listed as its path is.
pub open spec fn named_by_path(tracks: Seq<Track>) -> bool {
    forall|i: int| 0 <= i < tracks.len() ==> (#[trigger] tracks[i])@ == track_of(tracks[i].path)
}

/// The paths of playable files among others, in their order.
pub open spec fn audio_paths(paths: Seq<PathBuf>) -> Seq<PathBuf> {
    paths.filter(|p: PathBuf| is_audio(p))
}

pub(crate) fn new_track(path: PathBuf) -> (r: Track)
    ensures
        r@ == track_of(path),
{
    let name = display_name(&path);
    Track { path, name }
}

impl App {
    /// The tracks are named after their paths, the selection is in the list, and
    /// a track is loaded exactly while the player is not stopped.
    pub open spec fn wf(self) -> bool {
        &&& named_by_path(self.tracks@)
        &&& self.selected matches Some(i) ==> i < self.tracks@.len()
        &&& self.player.consistent()
    }

    /// While a track is loaded, the loaded index, if there is one, points at a
    /// track of that name.
    pub open spec fn in_step(self) -> bool {
        !(self.player.state is Stopped) ==> (self.playing_index matches Some(p) ==> {
            &&& p < self.tracks@.len()
            &&& self.player.current is Some
            &&& self.player.current->0@ == self.tracks@[p as int].name@
        })
    }

    /// An application without tracks, not playing.
    pub fn new() -> (r: App)
        ensures
            r.wf(),
            r.in_step(),
            r.tracks@ == Seq::<Track>::empty(),
            r.selected is None,
            r.player.state is Stopped,
            r.current_playlist is None,
            !r.show_config,
            r.midi_ports@ == Seq::<String>::empty(),
            r.connected_port is None,
            r.playing_index is None,
            !r.did_maximize,
            r.status@ == Seq::<char>::empty(),
    {
        App {
            tracks: Vec::new(),
            selected: None,
            player: Player::new(),
            current_playlist: None,
            show_config: false,
            midi_ports: Vec::new(),
            connected_port: None,
            playing_index: None,
            did_maximize: false,
            status: String::new(),
        }
    }

    /// Appends the playable files among `paths` to the list. Where nothing was
    /// selected, the first track of the list is.
    pub fn add_paths(&mut self, paths: Vec<PathBuf>)
        requires
            old(self).wf(),
        ensures
            final(self).wf(),
            old(self).in_step() ==> final(self).in_step(),
            listed(final(self).tracks@) == listed(old(self).tracks@) + tracks_of(
                audio_paths(paths@),
            ),
            final(self).selected == if old(self).selected is None && final(self).tracks@.len() > 0 {
                Some(0usize)
            } else {
                old(self).selected
            },
            final(self).status@ == "Added "@ + decimal(audio_paths(paths@).len()) + " track(s)"@,
            *final(self) == (App {
                tracks: final(self).tracks,
                selected: final(self).selected,
                status: final(self).status,
                ..*old(self)
            }),
    {
        let ghost audio = |p: PathBuf| is_audio(p);
        let ghost all = paths@;
        let ghost before = listed(self.tracks@);
        let mut added: usize = 0;
        assert(all.len() == paths.len());
        for path in iter: paths
            invariant
                iter.seq() == all,
                audio == (|p: PathBuf| is_audio(p)),
                added == all.take(iter.index()).filter(audio).len(),
                added <= iter.index() <= all.len() <= usize::MAX,
                listed(self.tracks@) == before + tracks_of(all.take(iter.index()).filter(audio)),
                old(self).wf(),
                *self == (App { tracks: self.tracks, ..*old(self) }),
                self.tracks@.len() >= old(self).tracks@.len(),
                named_by_path(self.tracks@),
        {
            let ghost i = iter.index();
            let ghost so_far = all.take(i).filter(audio);
            proof {
                reveal(Seq::filter);
                assert(all.take(i + 1).drop_last() =~= all.take(i));
                assert(all.take(i + 1).last() == path);
            }
            if is_audio_file(&path) {
                let ghost old_list = listed(self.tracks@);
                self.tracks.push(new_track(path));
                added = added + 1;
                assert(listed(self.tracks@) =~= old_list.push(track_of(path)));
                assert(tracks_of(so_far.push(path)) =~= tracks_of(so_far).push(track_of(path)));
                assert(listed(self.tracks@) =~= before + tracks_of(so_far.push(path)));
            }
        }
        assert(all.take(all.len() as int) =~= all);
        assert forall|i: int| 0 <= i < old(self).tracks@.len() implies (#[trigger] self.tracks@[i]).name@
            == old(self).tracks@[i].name@ by {
            assert(listed(self.tracks@)[i] == before[i]);
        }
        if self.selected.is_none() && !self.tracks.is_empty() {
            self.selected = Some(0);
        }
        self.status = "Added ".to_owned().concat(decimal_text(added).as_str()).concat(" track(s)");
    }
}

} // verus!
