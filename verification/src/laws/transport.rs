//! Laws of the transport.
use vstd::prelude::*;

use crate::action::Action;
use crate::app::App;
use crate::player::{PlaybackState, Player};
use crate::transport::Command;

verus! {

/// What plays is paused, whatever is selected and whichever index is loaded;
/// the track stays loaded and nothing else changes.
pub proof fn lemma_playing_is_paused(app: &mut App, r: Command)
    requires
        call_ensures(App::play_pause, (app,), r) || call_ensures(
            App::dispatch,
            (app, Action::PlayPause),
            r,
        ),
        old(app).player.state is Playing,
    ensures
        r is Pause,
        *final(app) == (App {
            player: Player { state: PlaybackState::Paused, current: old(app).player.current },
            ..*old(app)
        }),
{
}

/// A paused track is resumed where it is the selected one, and nothing else
/// changes.
pub proof fn lemma_paused_selection_is_resumed(app: &mut App, r: Command, i: usize)
    requires
        call_ensures(App::play_pause, (app,), r) || call_ensures(
            App::dispatch,
            (app, Action::PlayPause),
            r,
        ),
        old(app).player.state is Paused,
        old(app).selected == Some(i),
        old(app).playing_index == Some(i),
    ensures
        r is Resume,
        *final(app) == (App {
            player: Player { state: PlaybackState::Playing, current: old(app).player.current },
            ..*old(app)
        }),
{
}

/// While nothing plays, a selected track that is not the paused one is asked
/// for, and nothing changes until it was started.
pub proof fn lemma_selection_is_started(app: &mut App, r: Command, i: usize)
    requires
        call_ensures(App::play_pause, (app,), r) || call_ensures(
            App::dispatch,
            (app, Action::PlayPause),
            r,
        ),
        old(app).selected == Some(i),
        old(app).player.state is Stopped || (old(app).player.state is Paused && old(app).playing_index != Some(i)),
    ensures
        r == Command::Play(i),
        *final(app) == *old(app),
{
}

/// While nothing plays and nothing is selected, nothing is asked of the output,
/// and only the status says so.
pub proof fn lemma_no_selection_starts_nothing(app: &mut App, r: Command)
    requires
        call_ensures(App::play_pause, (app,), r) || call_ensures(
            App::dispatch,
            (app, Action::PlayPause),
            r,
        ),
        !(old(app).player.state is Playing),
        old(app).selected is None,
    ensures
        r is Nothing,
        final(app).status@ == "No track selected"@,
        *final(app) == (App { status: final(app).status, ..*old(app) }),
{
}

/// Starting the selection asks for the selected track, whatever the player does;
/// without a selection only the status says so.
pub proof fn lemma_play_selected(app: &mut App, r: Command)
    requires
        call_ensures(App::play_selected, (app,), r),
    ensures
        old(app).selected matches Some(i) ==> r == Command::Play(i) && *final(app) == *old(app),
        old(app).selected is None ==> r is Nothing && final(app).status@ == "No track selected"@
            && *final(app) == (App { status: final(app).status, ..*old(app) }),
{
}

/// Stopping stops the output and unloads the track, whatever the player does;
/// nothing else changes.
pub proof fn lemma_stop_unloads(app: &mut App, r: Command)
    requires
        call_ensures(App::stop, (app,), r) || call_ensures(App::dispatch, (app, Action::Stop), r),
    ensures
        r is Stop,
        *final(app) == (App {
            player: Player { state: PlaybackState::Stopped, current: None },
            ..*old(app)
        }),
{
}

/// Next selects the track below, whatever the length of the list; at the end it
/// stays at the last track, and without a selection it takes the first. Nothing
/// else changes.
pub proof fn lemma_next_selects_below(app: &mut App, r: Command)
    requires
        call_ensures(App::select_next, (app,), ()) || call_ensures(
            App::dispatch,
            (app, Action::Next),
            r,
        ),
    ensures
        old(app).selected matches Some(i) ==> i + 1 < old(app).tracks@.len() ==> final(app).selected is Some && final(app).selected->0 == i + 1,
        old(app).selected matches Some(i) ==> 0 < old(app).tracks@.len() <= i + 1 ==> final(app).selected is Some && final(app).selected->0 == old(app).tracks@.len() - 1,
        old(app).selected is None && old(app).tracks@.len() > 0 ==> final(app).selected == Some(
            0usize,
        ),
        old(app).tracks@.len() == 0 ==> final(app).selected == old(app).selected,
        *final(app) == (App { selected: final(app).selected, ..*old(app) }),
{
    assert(old(app).tracks.len() == old(app).tracks@.len());
}

/// Previous selects the track above, whatever the length of the list; at the top
/// it stays at the first track, which it also takes without a selection. Nothing
/// else changes.
pub proof fn lemma_prev_selects_above(app: &mut App, r: Command)
    requires
        call_ensures(App::select_prev, (app,), ()) || call_ensures(
            App::dispatch,
            (app, Action::Prev),
            r,
        ),
    ensures
        old(app).selected matches Some(i) ==> 0 < i && old(app).tracks@.len() > 0 ==> final(app).selected is Some && final(app).selected->0 == i - 1,
        old(app).tracks@.len() > 0 && (old(app).selected is None || old(app).selected == Some(
            0usize,
        )) ==> final(app).selected == Some(0usize),
        old(app).tracks@.len() == 0 ==> final(app).selected == old(app).selected,
        *final(app) == (App { selected: final(app).selected, ..*old(app) }),
{
}

/// Next and previous ask nothing of the output.
pub proof fn lemma_moving_asks_nothing(app: &mut App, action: Action, r: Command)
    requires
        call_ensures(App::dispatch, (app, action), r),
        action is Next || action is Prev,
    ensures
        r is Nothing,
        final(app).player == old(app).player,
{
}

/// A track that was started is the loaded one, under its own name and index.
pub proof fn lemma_started_is_loaded(app: &mut App, index: usize, started: Result<(), String>)
    requires
        call_ensures(App::play_result, (app, index, started), ()),
        started is Ok,
    ensures
        final(app).player.state is Playing,
        final(app).player.current == Some(old(app).tracks@[index as int].name),
        final(app).playing_index == Some(index),
        final(app).status@ == "Playing: "@ + old(app).tracks@[index as int].name@,
        *final(app) == (App {
            player: final(app).player,
            playing_index: final(app).playing_index,
            status: final(app).status,
            ..*old(app)
        }),
{
}

/// A track that could not be started changes nothing but the status, which names
/// it and the reason.
pub proof fn lemma_failed_start_is_told(
    app: &mut App,
    index: usize,
    started: Result<(), String>,
    reason: String,
)
    requires
        call_ensures(App::play_result, (app, index, started), ()),
        started == Err::<(), String>(reason),
    ensures
        final(app).status@ == "Failed to play "@ + old(app).tracks@[index as int].name@ + ": "@
            + reason@,
        *final(app) == (App { status: final(app).status, ..*old(app) }),
{
}

/// Following the output stops what has come to its end, forgets the loaded index
/// exactly where the player is stopped, and otherwise changes nothing.
pub proof fn lemma_output_followed(app: &mut App, drained: bool)
    requires
        call_ensures(App::follow_output, (app, drained), ()),
        old(app).wf(),
    ensures
        old(app).player.state is Playing && drained ==> final(app).player.state is Stopped
            && final(app).player.current is None,
        old(app).player.state is Playing && !drained ==> *final(app) == *old(app),
        old(app).player.state is Paused ==> *final(app) == *old(app),
        old(app).player.state is Stopped ==> final(app).player == old(app).player,
        final(app).player.state is Stopped ==> final(app).playing_index is None,
        *final(app) == (App {
            player: final(app).player,
            playing_index: final(app).playing_index,
            ..*old(app)
        }),
{
}

/// The window is to be maximized the first time it is asked for, and never again.
pub proof fn lemma_maximized_once(app: &mut App, r: bool)
    requires
        call_ensures(App::wants_maximize, (app,), r),
    ensures
        r == !old(app).did_maximize,
        final(app).did_maximize,
        *final(app) == (App { did_maximize: true, ..*old(app) }),
{
}

} // verus!
