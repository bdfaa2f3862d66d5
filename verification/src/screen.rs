//! What the window shows, and what clicking in it does.
use vstd::prelude::*;

use crate::action::Action;
use crate::app::App;
#[allow(unused_imports)]
use crate::edit::Listing;
use crate::midi::{fmt_key, MidiBindings};
#[allow(unused_imports)]
use crate::midi::{key_for, key_text};
use crate::player::PlaybackState;
#[allow(unused_imports)]
use crate::player::Player;
use crate::text::first_chars;
#[allow(unused_imports)]
use crate::text::prefix;
use crate::transport::Command;

verus! {

/// How many characters of a name are shown in large text.
pub const NAME_LENGTH: usize = 15;

/// The head of the window: what is playing and what is selected.
#[derive(Debug)]
pub struct NowPlaying {
    pub caption: &'static str,
    pub playing: String,
    pub selected: String,
}

/// A row of the track list.
#[derive(Debug)]
pub struct Row {
    pub can_move_up: bool,
    pub can_move_down: bool,
    pub selected: bool,
    pub name: String,
}

/// What was clicked in a row.
#[derive(Clone, Copy, PartialEq, Eq, Debug, Structural)]
pub struct RowClicks {
    pub up: bool,
    pub down: bool,
    pub remove: bool,
    pub clicked: bool,
    pub double_clicked: bool,
}

/// An edit of the track list. Edits are deferred until the whole list was
/// shown, so that it never changes while it is walked by index.
#[derive(Clone, Copy, PartialEq, Eq, Debug, Structural)]
pub enum Op {
    Up(usize),
    Down(usize),
    Remove(usize),
}

impl Op {
    /// The index of the track that is edited.
    pub open spec fn index(self) -> usize {
        match self {
            Op::Up(i) => i,
            Op::Down(i) => i,
            Op::Remove(i) => i,
        }
    }
}

/// The edit pending after a row was shown: the last one that was clicked.
pub open spec fn pending_op(pending: Option<Op>, i: usize, clicks: RowClicks) -> Option<Op> {
    if clicks.remove {
        Some(Op::Remove(i))
    } else if clicks.down {
        Some(Op::Down(i))
    } else if clicks.up {
        Some(Op::Up(i))
    } else {
        pending
    }
}

/// The listing after a pending edit.
pub open spec fn edited(listing: Listing, op: Option<Op>) -> Listing {
    match op {
        Some(Op::Up(i)) => listing.move_up(i),
        Some(Op::Down(i)) => listing.move_down(i),
        Some(Op::Remove(i)) => listing.remove(i),
        None => listing,
    }
}

/// The application after a row was clicked: a click selects the track, a double
/// click also stops the player, for the track to be started.
pub open spec fn row_clicked(app: App, i: usize, clicks: RowClicks) -> App {
    if clicks.double_clicked {
        App {
            selected: Some(i),
            player: Player { state: PlaybackState::Stopped, current: None },
            ..app
        }
    } else if clicks.clicked {
        App { selected: Some(i), ..app }
    } else {
        app
    }
}

/// The caption above the name of what is playing.
pub open spec fn caption_of(player: Player) -> Seq<char> {
    match (player.current, player.state) {
        (Some(_), PlaybackState::Paused) => "PAUSED"@,
        (Some(_), _) => "NOW PLAYING"@,
        (None, _) => "STOPPED"@,
    }
}

/// What is shown of an optional name: its first characters, or a dash.
pub open spec fn shown_name(name: Option<Seq<char>>) -> Seq<char> {
    match name {
        Some(name) => prefix(name, NAME_LENGTH as nat),
        None => prefix("—"@, NAME_LENGTH as nat),
    }
}

impl App {
    /// The symbol on the play/pause button.
    pub fn toggle_glyph(&self) -> (r: &'static str)
        ensures
            r@ == if self.player.state is Playing {
                "⏸"@
            } else {
                "▶"@
            },
    {
        if self.player.state == PlaybackState::Playing {
            "⏸"
        } else {
            "▶"
        }
    }

    /// The head of the window.
    pub fn now_playing(&self) -> (r: NowPlaying)
        requires
            self.wf(),
        ensures
            r.caption@ == caption_of(self.player),
            r.playing@ == shown_name(
                match self.player.current {
                    Some(name) => Some(name@),
                    None => None,
                },
            ),
            r.selected@ == shown_name(
                match self.selected {
                    Some(i) => Some(self.tracks@[i as int].name@),
                    None => None,
                },
            ),
    {
        let caption = match (&self.player.current, self.player.state) {
            (Some(_), PlaybackState::Paused) => "PAUSED",
            (Some(_), _) => "NOW PLAYING",
            (None, _) => "STOPPED",
        };
        let playing = match &self.player.current {
            Some(name) => first_chars(name.as_str(), NAME_LENGTH),
            None => first_chars("—", NAME_LENGTH),
        };
        let selected = match self.selected {
            Some(i) => first_chars(self.tracks[i].name.as_str(), NAME_LENGTH),
            None => first_chars("—", NAME_LENGTH),
        };
        NowPlaying { caption, playing, selected }
    }

    /// A row of the track list.
    pub fn row(&self, i: usize) -> (r: Row)
        requires
            i < self.tracks@.len(),
        ensures
            r.can_move_up == (i > 0),
            r.can_move_down == (i + 1 < self.tracks@.len()),
            r.selected == (self.selected == Some(i)),
            r.name == self.tracks@[i as int].name,
    {
        let selected = match self.selected {
            Some(s) => s == i,
            None => false,
        };
        let len = self.tracks.len();
        Row {
            can_move_up: i > 0,
            can_move_down: i + 1 < len,
            selected,
            name: self.tracks[i].name.clone(),
        }
    }

    /// Takes the clicks in a row: notes the edit that was asked for, and selects
    /// or starts the track.
    pub fn row_input(&mut self, i: usize, clicks: RowClicks, pending: &mut Option<Op>) -> (r:
        Command)
        requires
            old(self).wf(),
            i < old(self).tracks@.len(),
        ensures
            final(self).wf(),
            old(self).in_step() ==> final(self).in_step(),
            *final(pending) == pending_op(*old(pending), i, clicks),
            *final(self) == row_clicked(*old(self), i, clicks),
            r == if clicks.double_clicked {
                Command::Restart(i)
            } else {
                Command::Nothing
            },
    {
        if clicks.up {
            *pending = Some(Op::Up(i));
        }
        if clicks.down {
            *pending = Some(Op::Down(i));
        }
        if clicks.remove {
            *pending = Some(Op::Remove(i));
        }
        if clicks.clicked {
            self.selected = Some(i);
        }
        if clicks.double_clicked {
            self.selected = Some(i);
            self.player.stop();
            Command::Restart(i)
        } else {
            Command::Nothing
        }
    }

    /// Carries out the pending edit.
    pub fn apply_op(&mut self, pending: Option<Op>)
        requires
            old(self).wf(),
            pending matches Some(op) ==> op.index() < old(self).tracks@.len(),
        ensures
            final(self).wf(),
            old(self).in_step() ==> final(self).in_step(),
            final(self).listing() == edited(old(self).listing(), pending),
            final(self).same_but_listing(*old(self)),
    {
        match pending {
            Some(Op::Up(i)) => self.move_up(i),
            Some(Op::Down(i)) => {
                assert(self.tracks.len() == self.tracks@.len());
                self.move_down(i)
            },
            Some(Op::Remove(i)) => self.remove_track(i),
            None => {},
        }
    }
}

/// The text shown for the binding of an action, given which action is being
/// learned.
pub open spec fn binding_shown(
    bindings: MidiBindings,
    learning: Option<Action>,
    action: Action,
) -> Seq<char> {
    if learning == Some(action) {
        "← listening…"@
    } else {
        match key_for(bindings.map@, action) {
            Some(key) => key_text(key),
            None => "unassigned"@,
        }
    }
}

impl MidiBindings {
    /// The text shown for the binding of an action.
    pub fn binding_text(&self, learning: Option<Action>, action: Action) -> (r: String)
        ensures
            r@ == binding_shown(*self, learning, action),
    {
        let listening = match learning {
            Some(learned) => learned == action,
            None => false,
        };
        if listening {
            "← listening…".to_owned()
        } else {
            match self.binding_for(action) {
                Some(key) => fmt_key(key),
                None => "unassigned".to_owned(),
            }
        }
    }
}

/// The caption says "stopped" exactly while the player is, and "paused" exactly
/// while it is paused.
pub proof fn lemma_caption_tells_state(app: App)
    requires
        app.wf(),
    ensures
        app.player.state is Stopped <==> caption_of(app.player) == "STOPPED"@,
        app.player.state is Paused <==> caption_of(app.player) == "PAUSED"@,
        app.player.state is Playing <==> caption_of(app.player) == "NOW PLAYING"@,
{
    reveal_strlit("STOPPED");
    reveal_strlit("PAUSED");
    reveal_strlit("NOW PLAYING");
    assert("STOPPED"@.len() == 7 && "PAUSED"@.len() == 6 && "NOW PLAYING"@.len() == 11);
}

} // verus!
