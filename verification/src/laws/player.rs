//! Laws of the player.
use vstd::prelude::*;

use crate::player::Player;

verus! {

/// A new player is stopped, with nothing loaded.
pub proof fn lemma_new_is_stopped(r: Player)
    requires
        call_ensures(Player::new, (), r),
    ensures
        r.state is Stopped,
        r.current is None,
{
}

/// A track that started is loaded and plays, whatever the player did; one that
/// did not leaves the player as it was. The outcome is handed on.
pub proof fn lemma_play_path(
    player: &mut Player,
    name: String,
    started: Result<(), String>,
    r: Result<(), String>,
)
    requires
        call_ensures(Player::play_path, (player, name, started), r),
    ensures
        r == started,
        started is Ok ==> final(player).state is Playing && final(player).current == Some(name),
        started is Err ==> *final(player) == *old(player),
{
}

/// Pausing, resuming and stopping set the state, whatever it was; only stopping
/// unloads the track.
pub proof fn lemma_states_are_set(player: &mut Player)
    ensures
        call_ensures(Player::pause, (player,), ()) ==> final(player).state is Paused && final(player).current == old(player).current,
        call_ensures(Player::resume, (player,), ()) ==> final(player).state is Playing && final(player).current == old(player).current,
        call_ensures(Player::stop, (player,), ()) ==> final(player).state is Stopped && final(player).current is None,
{
}

/// A poll stops a player that plays to the end of its output, and no other.
pub proof fn lemma_poll(player: &mut Player, drained: bool)
    requires
        call_ensures(Player::poll, (player, drained), ()),
    ensures
        old(player).state is Playing && drained ==> final(player).state is Stopped && final(player).current is None,
        !(old(player).state is Playing) ==> *final(player) == *old(player),
        !drained ==> *final(player) == *old(player),
{
}

} // verus!
