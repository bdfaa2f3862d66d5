//! What the player is doing: the state that follows the audio output.
use vstd::prelude::*;

verus! {

#[derive(Clone, Copy, PartialEq, Eq, Debug, Structural)]
pub enum PlaybackState {
    Stopped,
    Playing,
    Paused,
}

/// The state of playback. The audio output itself is driven by the caller, who
/// tells the player what became of it.
#[derive(Debug)]
pub struct Player {
    pub state: PlaybackState,
    /// Display name of the track currently loaded into the output.
    pub current: Option<String>,
}

impl Player {
    /// A track is loaded exactly while the player is not stopped.
    pub open spec fn consistent(self) -> bool {
        self.state is Stopped <==> self.current is None
    }

    /// Nothing loaded, nothing playing.
    pub fn new() -> (r: Player)
        ensures
            r.state is Stopped,
            r.current is None,
    {
        Player { state: PlaybackState::Stopped, current: None }
    }

    /// Takes the outcome of loading the track `name` and starting it. Where that
    /// failed the player goes on with what it was doing.
    pub fn play_path(&mut self, name: String, started: Result<(), String>) -> (r: Result<
        (),
        String,
    >)
        ensures
            r == started,
            started is Ok ==> *final(self) == (Player {
                state: PlaybackState::Playing,
                current: Some(name),
            }),
            started is Err ==> *final(self) == *old(self),
    {
        if started.is_ok() {
            self.state = PlaybackState::Playing;
            self.current = Some(name);
        }
        started
    }

    pub fn pause(&mut self)
        ensures
            *final(self) == (Player { state: PlaybackState::Paused, ..*old(self) }),
    {
        self.state = PlaybackState::Paused;
    }

    pub fn resume(&mut self)
        ensures
            *final(self) == (Player { state: PlaybackState::Playing, ..*old(self) }),
    {
        self.state = PlaybackState::Playing;
    }

    pub fn stop(&mut self)
        ensures
            *final(self) == (Player { state: PlaybackState::Stopped, current: None }),
    {
        self.state = PlaybackState::Stopped;
        self.current = None;
    }

    /// Detects natural end-of-track, so that the player is stopped once the
    /// output has drained. Called once per frame.
    pub fn poll(&mut self, drained: bool)
        ensures
            *final(self) == if old(self).state is Playing && drained {
                (Player { state: PlaybackState::Stopped, current: None })
            } else {
                *old(self)
            },
    {
        if self.state == PlaybackState::Playing && drained {
            self.state = PlaybackState::Stopped;
            self.current = None;
        }
    }
}

} // verus!
