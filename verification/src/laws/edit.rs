//! Laws of editing the track list.
use vstd::prelude::*;

use crate::app::App;
use crate::screen::Op;

verus! {

/// Two swapped tracks stand in each other's place and every other one where it
/// was; the selection and the loaded index go with their tracks. Nothing else
/// changes.
pub proof fn lemma_swap(app: &mut App, a: usize, b: usize)
    requires
        call_ensures(App::swap_tracks, (app, a, b), ()),
        a < old(app).tracks@.len(),
        b < old(app).tracks@.len(),
    ensures
        final(app).tracks@.len() == old(app).tracks@.len(),
        final(app).tracks@[a as int] == old(app).tracks@[b as int],
        final(app).tracks@[b as int] == old(app).tracks@[a as int],
        forall|k: int|
            0 <= k < old(app).tracks@.len() && k != a && k != b ==> #[trigger] final(app).tracks@[k]
                == old(app).tracks@[k],
        old(app).selected == Some(a) ==> final(app).selected == Some(b),
        old(app).selected == Some(b) ==> final(app).selected == Some(a),
        old(app).selected != Some(a) && old(app).selected != Some(b) ==> final(app).selected == old(app).selected,
        old(app).playing_index == Some(a) ==> final(app).playing_index == Some(b),
        old(app).playing_index == Some(b) ==> final(app).playing_index == Some(a),
        old(app).playing_index != Some(a) && old(app).playing_index != Some(b) ==> final(app).playing_index == old(app).playing_index,
        *final(app) == (App {
            tracks: final(app).tracks,
            selected: final(app).selected,
            playing_index: final(app).playing_index,
            ..*old(app)
        }),
{
}

/// A track that is moved up changes places with the one above it, wherever it
/// stands and whatever is selected or loaded.
pub proof fn lemma_up(app: &mut App, i: usize)
    requires
        call_ensures(App::move_up, (app, i), ()) || call_ensures(
            App::apply_op,
            (app, Some(Op::Up(i))),
            (),
        ),
        0 < i < old(app).tracks@.len(),
    ensures
        final(app).tracks@.len() == old(app).tracks@.len(),
        final(app).tracks@[i - 1] == old(app).tracks@[i as int],
        final(app).tracks@[i as int] == old(app).tracks@[i - 1],
        forall|k: int|
            0 <= k < old(app).tracks@.len() && k != i && k != i - 1 ==> #[trigger] final(app).tracks@[k] == old(app).tracks@[k],
        old(app).selected == Some(i) ==> final(app).selected == Some((i - 1) as usize),
        old(app).selected == Some((i - 1) as usize) ==> final(app).selected == Some(i),
        old(app).selected != Some(i) && old(app).selected != Some((i - 1) as usize) ==> final(app).selected == old(app).selected,
        old(app).playing_index == Some(i) ==> final(app).playing_index == Some((i - 1) as usize),
        old(app).playing_index == Some((i - 1) as usize) ==> final(app).playing_index == Some(i),
        old(app).playing_index != Some(i) && old(app).playing_index != Some((i - 1) as usize)
            ==> final(app).playing_index == old(app).playing_index,
        *final(app) == (App {
            tracks: final(app).tracks,
            selected: final(app).selected,
            playing_index: final(app).playing_index,
            ..*old(app)
        }),
{
}

/// A track that is moved down changes places with the one below it, wherever it
/// stands and whatever is selected or loaded.
pub proof fn lemma_down(app: &mut App, i: usize)
    requires
        call_ensures(App::move_down, (app, i), ()) || call_ensures(
            App::apply_op,
            (app, Some(Op::Down(i))),
            (),
        ),
        i + 1 < old(app).tracks@.len(),
    ensures
        final(app).tracks@.len() == old(app).tracks@.len(),
        final(app).tracks@[i + 1] == old(app).tracks@[i as int],
        final(app).tracks@[i as int] == old(app).tracks@[i + 1],
        forall|k: int|
            0 <= k < old(app).tracks@.len() && k != i && k != i + 1 ==> #[trigger] final(app).tracks@[k] == old(app).tracks@[k],
        old(app).selected == Some(i) ==> final(app).selected == Some((i + 1) as usize),
        old(app).selected == Some((i + 1) as usize) ==> final(app).selected == Some(i),
        old(app).selected != Some(i) && old(app).selected != Some((i + 1) as usize) ==> final(app).selected == old(app).selected,
        old(app).playing_index == Some(i) ==> final(app).playing_index == Some((i + 1) as usize),
        old(app).playing_index == Some((i + 1) as usize) ==> final(app).playing_index == Some(i),
        old(app).playing_index != Some(i) && old(app).playing_index != Some((i + 1) as usize)
            ==> final(app).playing_index == old(app).playing_index,
        *final(app) == (App {
            tracks: final(app).tracks,
            selected: final(app).selected,
            playing_index: final(app).playing_index,
            ..*old(app)
        }),
{
    assert(old(app).tracks.len() == old(app).tracks@.len());
}

/// The first track cannot be moved up, nor the last one down: nothing changes.
pub proof fn lemma_ends_stay(app: &mut App, i: usize)
    ensures
        call_ensures(App::move_up, (app, 0usize), ()) ==> final(app).tracks@ == old(app).tracks@
            && *final(app) == (App { tracks: final(app).tracks, ..*old(app) }),
        call_ensures(App::move_down, (app, i), ()) && i + 1 >= old(app).tracks@.len()
            ==> final(app).tracks@ == old(app).tracks@ && *final(app) == (App {
            tracks: final(app).tracks,
            ..*old(app)
        }),
{
}

/// A removed track is gone, whatever is selected or loaded: there is one track
/// fewer, those before it stand where they were, and each after it one place
/// earlier. Nothing but the listing changes.
pub proof fn lemma_remove_closes_gap(app: &mut App, i: usize)
    requires
        call_ensures(App::remove_track, (app, i), ()) || call_ensures(
            App::apply_op,
            (app, Some(Op::Remove(i))),
            (),
        ),
        i < old(app).tracks@.len(),
    ensures
        final(app).tracks@.len() == old(app).tracks@.len() - 1,
        forall|k: int| 0 <= k < i ==> #[trigger] final(app).tracks@[k] == old(app).tracks@[k],
        forall|k: int|
            i <= k < old(app).tracks@.len() - 1 ==> #[trigger] final(app).tracks@[k] == old(app).tracks@[k + 1],
        *final(app) == (App {
            tracks: final(app).tracks,
            selected: final(app).selected,
            playing_index: final(app).playing_index,
            ..*old(app)
        }),
{
}

/// When a track is removed, a selection before it stays and one after it goes
/// with its track. A selection of the removed track keeps its place, or takes the
/// last one where that is gone. Where no track is left nothing is selected.
pub proof fn lemma_remove_selection(app: &mut App, i: usize)
    requires
        call_ensures(App::remove_track, (app, i), ()) || call_ensures(
            App::apply_op,
            (app, Some(Op::Remove(i))),
            (),
        ),
        i < old(app).tracks@.len(),
    ensures
        old(app).tracks@.len() == 1 ==> final(app).selected is None,
        old(app).tracks@.len() > 1 && old(app).selected is None ==> final(app).selected is None,
        old(app).selected matches Some(s) ==> old(app).tracks@.len() > 1 ==> {
            &&& final(app).selected is Some
            &&& s < i ==> final(app).selected->0 == s
            &&& s > i ==> final(app).selected->0 == s - 1
            &&& s == i && i + 1 < old(app).tracks@.len() ==> final(app).selected->0 == i
            &&& s == i && i + 1 == old(app).tracks@.len() ==> final(app).selected->0 == i - 1
        },
{
}

/// When a track is removed, a loaded index before it stays, one after it goes
/// with its track, and that of the removed track is dropped.
pub proof fn lemma_remove_loaded(app: &mut App, i: usize)
    requires
        call_ensures(App::remove_track, (app, i), ()) || call_ensures(
            App::apply_op,
            (app, Some(Op::Remove(i))),
            (),
        ),
        i < old(app).tracks@.len(),
    ensures
        old(app).playing_index is None ==> final(app).playing_index is None,
        old(app).playing_index matches Some(p) ==> {
            &&& p < i ==> final(app).playing_index == Some(p)
            &&& p == i ==> final(app).playing_index is None
            &&& p > i ==> final(app).playing_index is Some && final(app).playing_index->0 == p - 1
        },
{
}

/// Removing what is not there, or editing nothing, changes nothing.
pub proof fn lemma_nothing_removed(app: &mut App, i: usize)
    requires
        call_ensures(App::remove_track, (app, i), ()) && i >= old(app).tracks@.len()
            || call_ensures(App::apply_op, (app, None::<Op>), ()),
    ensures
        final(app).tracks@ == old(app).tracks@,
        *final(app) == (App { tracks: final(app).tracks, ..*old(app) }),
{
}

} // verus!
