//! The transport actions and their stable identifiers.
use vstd::prelude::*;

use crate::text::same_text;

verus! {

/// The four transport actions: the only things a MIDI message can trigger.
#[derive(Clone, Copy, PartialEq, Eq, Debug, Structural)]
pub enum Action {
    PlayPause,
    Stop,
    Next,
    Prev,
}

impl Action {
    /// Every action, in the order in which they are offered for configuration.
    pub const ALL: [Action; 4] = [Action::PlayPause, Action::Stop, Action::Next, Action::Prev];

    /// The label shown for the action.
    pub open spec fn spec_label(self) -> Seq<char> {
        match self {
            Action::PlayPause => "Play / Pause"@,
            Action::Stop => "Stop"@,
            Action::Next => "Next"@,
            Action::Prev => "Previous"@,
        }
    }

    /// The identifier under which the action is stored.
    pub open spec fn spec_key(self) -> Seq<char> {
        match self {
            Action::PlayPause => "play_pause"@,
            Action::Stop => "stop"@,
            Action::Next => "next"@,
            Action::Prev => "prev"@,
        }
    }

    pub fn label(self) -> (r: &'static str)
        ensures
            r@ == self.spec_label(),
    {
        match self {
            Action::PlayPause => "Play / Pause",
            Action::Stop => "Stop",
            Action::Next => "Next",
            Action::Prev => "Previous",
        }
    }

    /// Stable identifier used when persisting bindings.
    pub fn key(self) -> (r: &'static str)
        ensures
            r@ == self.spec_key(),
    {
        match self {
            Action::PlayPause => "play_pause",
            Action::Stop => "stop",
            Action::Next => "next",
            Action::Prev => "prev",
        }
    }

    /// The action stored under an identifier, if there is one.
    pub fn from_key(s: &str) -> (r: Option<Action>)
        ensures
            r == Action::spec_from_key(s@),
    {
        for i in 0..Action::ALL.len()
            invariant
                forall|j: int| 0 <= j < i ==> (#[trigger] Action::ALL[j]).spec_key() != s@,
        {
            let action = Action::ALL[i];
            if same_text(action.key(), s) {
                proof {
                    Self::lemma_keys_distinct();
                }
                return Some(action);
            }
        }
        assert(Action::ALL[0] == Action::PlayPause && Action::ALL[1] == Action::Stop
            && Action::ALL[2] == Action::Next && Action::ALL[3] == Action::Prev);
        None
    }

    /// The action whose identifier is `s`, if there is one.
    pub open spec fn spec_from_key(s: Seq<char>) -> Option<Action> {
        if s == Action::PlayPause.spec_key() {
            Some(Action::PlayPause)
        } else if s == Action::Stop.spec_key() {
            Some(Action::Stop)
        } else if s == Action::Next.spec_key() {
            Some(Action::Next)
        } else if s == Action::Prev.spec_key() {
            Some(Action::Prev)
        } else {
            None
        }
    }

    /// Two actions with one identifier are the same action.
    pub proof fn lemma_keys_distinct()
        ensures
            forall|a: Action, b: Action| #[trigger] a.spec_key() == #[trigger] b.spec_key() ==> a == b,
    {
        reveal_strlit("play_pause");
        reveal_strlit("stop");
        reveal_strlit("next");
        reveal_strlit("prev");
        assert("play_pause"@.len() == 10);
        assert("stop"@[0] == 's' && "next"@[0] == 'n' && "prev"@[0] == 'p');
        assert("stop"@.len() == 4 && "next"@.len() == 4 && "prev"@.len() == 4);
    }

    /// Reading back the identifier of an action gives that action, and an
    /// identifier that is read gives back itself.
    pub proof fn lemma_key_round_trip(a: Action, s: Seq<char>)
        ensures
            Action::spec_from_key(a.spec_key()) == Some(a),
            Action::spec_from_key(s) == Some(a) <==> s == a.spec_key(),
    {
        Self::lemma_keys_distinct();
    }
}

} // verus!
