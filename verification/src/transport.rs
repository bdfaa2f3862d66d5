//! The transport: play/pause, stop, and moving the selection.
use vstd::prelude::*;
use vstd::string::*;

use crate::action::Action;
use crate::app::App;
#[allow(unused_imports)]
use crate::app::Track;
use crate::player::PlaybackState;
#[allow(unused_imports)]
use crate::player::Player;

verus! {

/// What is to be done with the audio output.
#[derive(Clone, Copy, PartialEq, Eq, Debug, Structural)]
pub enum Command {
    Nothing,
    Pause,
    Resume,
    Stop,
    /// Load the track at this index and start it, then report with
    /// [`App::play_result`].
    Play(usize),
    /// Stop the output, then do as for `Play`.
    Restart(usize),
}

/// The selection one further down, or the last track, or the first where
/// nothing was selected.
pub open spec fn next_selection(selected: Option<usize>, len: nat) -> Option<usize> {
    if len == 0 {
        selected
    } else {
        match selected {
            Some(i) => Some(if i + 1 < len {
                (i + 1) as usize
            } else {
                (len - 1) as usize
            }),
            None => Some(0),
        }
    }
}

/// The selection one further up, or the first track, also where nothing was
/// selected.
pub open spec fn prev_selection(selected: Option<usize>, len: nat) -> Option<usize> {
    if len == 0 {
        selected
    } else {
        match selected {
            Some(i) if i > 0 => Some((i - 1) as usize),
            _ => Some(0),
        }
    }
}

/// What starting the selection asks of the output.
pub open spec fn start_command(selected: Option<usize>) -> Command {
    match selected {
        Some(i) => Command::Play(i),
        None => Command::Nothing,
    }
}

/// Whether the selection points at the loaded track.
pub open spec fn selects_loaded(app: App) -> bool {
    app.selected is Some && app.selected == app.playing_index
}

/// What play/pause asks of the output. A paused track is resumed only while the
/// selection still points at it; otherwise the selection is started.
pub open spec fn play_pause_command(app: App) -> Command {
    match app.player.state {
        PlaybackState::Playing => Command::Pause,
        PlaybackState::Paused if selects_loaded(app) => Command::Resume,
        _ => start_command(app.selected),
    }
}

/// Whether `after` is `before`, told that there is nothing to start where
/// nothing is selected.
pub open spec fn asked_to_start(before: App, after: App) -> bool {
    &&& before.selected is None ==> after.status@ == "No track selected"@ && after == (App {
        status: after.status,
        ..before
    })
    &&& before.selected is Some ==> after == before
}

/// Whether play/pause leads from `before` to `after`.
pub open spec fn play_paused(before: App, after: App) -> bool {
    match play_pause_command(before) {
        Command::Pause => after == (App {
            player: Player { state: PlaybackState::Paused, ..before.player },
            ..before
        }),
        Command::Resume => after == (App {
            player: Player { state: PlaybackState::Playing, ..before.player },
            ..before
        }),
        _ => asked_to_start(before, after),
    }
}

impl App {
    /// Carries out a transport action and says what it asks of the output.
    pub fn dispatch(&mut self, action: Action) -> (r: Command)
        requires
            old(self).wf(),
        ensures
            final(self).wf(),
            old(self).in_step() ==> final(self).in_step(),
            match action {
                Action::PlayPause => r == play_pause_command(*old(self)) && play_paused(
                    *old(self),
                    *final(self),
                ),
                Action::Stop => r is Stop && *final(self) == (App {
                    player: Player { state: PlaybackState::Stopped, current: None },
                    ..*old(self)
                }),
                Action::Next => r is Nothing && *final(self) == (App {
                    selected: next_selection(old(self).selected, old(self).tracks@.len()),
                    ..*old(self)
                }),
                Action::Prev => r is Nothing && *final(self) == (App {
                    selected: prev_selection(old(self).selected, old(self).tracks@.len()),
                    ..*old(self)
                }),
            },
    {
        match action {
            Action::PlayPause => self.play_pause(),
            Action::Stop => self.stop(),
            Action::Next => {
                self.select_next();
                Command::Nothing
            },
            Action::Prev => {
                self.select_prev();
                Command::Nothing
            },
        }
    }

    pub fn play_pause(&mut self) -> (r: Command)
        requires
            old(self).wf(),
        ensures
            final(self).wf(),
            old(self).in_step() ==> final(self).in_step(),
            r == play_pause_command(*old(self)),
            play_paused(*old(self), *final(self)),
    {
        match self.player.state {
            PlaybackState::Playing => {
                self.player.pause();
                Command::Pause
            },
            // Resume only if the selection still points at the paused track;
            // otherwise start the newly-selected track.
            PlaybackState::Paused if same_track(self.selected, self.playing_index) => {
                self.player.resume();
                Command::Resume
            },
            PlaybackState::Paused | PlaybackState::Stopped => self.play_selected(),
        }
    }

    /// Stops playback.
    pub fn stop(&mut self) -> (r: Command)
        requires
            old(self).wf(),
        ensures
            final(self).wf(),
            old(self).in_step() ==> final(self).in_step(),
            r is Stop,
            *final(self) == (App {
                player: Player { state: PlaybackState::Stopped, current: None },
                ..*old(self)
            }),
    {
        self.player.stop();
        Command::Stop
    }

    /// Asks for the selected track to be started.
    pub fn play_selected(&mut self) -> (r: Command)
        requires
            old(self).wf(),
        ensures
            final(self).wf(),
            old(self).in_step() ==> final(self).in_step(),
            r == start_command(old(self).selected),
            asked_to_start(*old(self), *final(self)),
    {
        match self.selected {
            Some(index) => Command::Play(index),
            None => {
                self.status = "No track selected".to_owned();
                Command::Nothing
            },
        }
    }

    /// Takes the outcome of loading the track at `index` and starting it.
    pub fn play_result(&mut self, index: usize, started: Result<(), String>)
        requires
            old(self).wf(),
            index < old(self).tracks@.len(),
        ensures
            final(self).wf(),
            started is Ok || old(self).in_step() ==> final(self).in_step(),
            match started {
                Ok(_) => {
                    &&& final(self).player.state is Playing
                    &&& final(self).player.current == Some(old(self).tracks@[index as int].name)
                    &&& final(self).playing_index == Some(index)
                    &&& final(self).status@ == "Playing: "@ + old(
                        self,
                    ).tracks@[index as int].name@
                    &&& *final(self) == (App {
                        player: final(self).player,
                        playing_index: final(self).playing_index,
                        status: final(self).status,
                        ..*old(self)
                    })
                },
                Err(e) => {
                    &&& final(self).status@ == "Failed to play "@ + old(
                        self,
                    ).tracks@[index as int].name@ + ": "@ + e@
                    &&& *final(self) == (App { status: final(self).status, ..*old(self) })
                },
            },
    {
        let name = self.tracks[index].name.clone();
        match self.player.play_path(name, started) {
            Ok(_) => {
                self.playing_index = Some(index);
                self.status = "Playing: ".to_owned().concat(self.tracks[index].name.as_str());
            },
            Err(e) => {
                self.status = "Failed to play ".to_owned().concat(
                    self.tracks[index].name.as_str(),
                ).concat(": ").concat(e.as_str());
            },
        }
    }

    /// Next/previous only move the selection — never start playback.
    pub fn select_next(&mut self)
        requires
            old(self).wf(),
        ensures
            final(self).wf(),
            old(self).in_step() ==> final(self).in_step(),
            *final(self) == (App {
                selected: next_selection(old(self).selected, old(self).tracks@.len()),
                ..*old(self)
            }),
    {
        if self.tracks.is_empty() {
            return;
        }
        let last = self.tracks.len() - 1;
        self.selected = match self.selected {
            Some(i) => Some(if i + 1 < last {
                i + 1
            } else {
                last
            }),
            None => Some(0),
        };
    }

    pub fn select_prev(&mut self)
        requires
            old(self).wf(),
        ensures
            final(self).wf(),
            old(self).in_step() ==> final(self).in_step(),
            *final(self) == (App {
                selected: prev_selection(old(self).selected, old(self).tracks@.len()),
                ..*old(self)
            }),
    {
        if self.tracks.is_empty() {
            return;
        }
        self.selected = match self.selected {
            Some(i) => Some(i.saturating_sub(1)),
            None => Some(0),
        };
    }

    /// The end of a frame's input: follows the output to the end of its track.
    /// Once playback is stopped (by the user or by reaching end-of-track), there
    /// is no loaded track to resume.
    pub fn follow_output(&mut self, drained: bool)
        requires
            old(self).wf(),
        ensures
            final(self).wf(),
            old(self).in_step() ==> final(self).in_step(),
            *final(self) == if old(self).player.state is Stopped || (
            old(self).player.state is Playing && drained) {
                (App {
                    player: Player { state: PlaybackState::Stopped, current: None },
                    playing_index: None,
                    ..*old(self)
                })
            } else {
                *old(self)
            },
            final(self).player.state is Stopped ==> final(self).playing_index is None,
    {
        self.player.poll(drained);
        if self.player.state == PlaybackState::Stopped {
            self.playing_index = None;
        }
    }

    /// Whether the window is still to be maximized; asked once per frame, it is
    /// so for the first frame only.
    pub fn wants_maximize(&mut self) -> (r: bool)
        ensures
            r == !old(self).did_maximize,
            *final(self) == (App { did_maximize: true, ..*old(self) }),
    {
        let first = !self.did_maximize;
        self.did_maximize = true;
        first
    }
}

/// Whether two indices point at one track; an absent index points at none.
fn same_track(a: Option<usize>, b: Option<usize>) -> (r: bool)
    ensures
        r == (a is Some && a == b),
{
    match (a, b) {
        (Some(x), Some(y)) => x == y,
        _ => false,
    }
}

/// Moving the selection down and up again, or up and down, returns to where it
/// was, unless it was held back at an end of the list.
pub proof fn lemma_next_prev(i: usize, len: nat)
    requires
        i < len <= usize::MAX,
    ensures
        i + 1 < len ==> prev_selection(next_selection(Some(i), len), len) == Some(i),
        i > 0 ==> next_selection(prev_selection(Some(i), len), len) == Some(i),
        i + 1 == len ==> next_selection(Some(i), len) == Some(i),
        i == 0 ==> prev_selection(Some(i), len) == Some(i),
{
}

/// Pausing and then asking again resumes, and the application is as before,
/// where the selection points at the loaded track.
pub proof fn lemma_pause_resume(before: App, paused: App, after: App)
    requires
        before.player.state is Playing,
        selects_loaded(before),
        play_paused(before, paused),
        play_paused(paused, after),
    ensures
        play_pause_command(before) is Pause,
        play_pause_command(paused) is Resume,
        after == before,
{
}

/// Play/pause resumes the selected track or none: what is resumed is selected,
/// and is a track of the selected one's name.
pub proof fn lemma_resume_is_selected(app: App)
    requires
        app.wf(),
        app.in_step(),
        play_pause_command(app) is Resume,
    ensures
        app.selected is Some,
        app.player.current is Some,
        app.player.current->0@ == app.tracks@[app.selected->0 as int].name@,
{
}

/// Where the selection does not point at the paused track, play/pause starts the
/// selected one, if there is one.
pub proof fn lemma_moved_selection_starts(app: App)
    requires
        app.player.state is Paused,
        !selects_loaded(app),
    ensures
        play_pause_command(app) == start_command(app.selected),
{
}

/// A track that no index stands for is never resumed: neither after it was
/// removed or the list begun anew, nor after a list was opened that holds another
/// track in its place.
pub proof fn lemma_unlisted_not_resumed(app: App)
    requires
        app.playing_index is None,
    ensures
        !(play_pause_command(app) is Resume),
{
}

} // verus!
