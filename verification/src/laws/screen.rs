//! Laws of what is shown, and of clicks.
use vstd::prelude::*;

use crate::app::App;
use crate::player::{PlaybackState, Player};
use crate::screen::{NowPlaying, Op, Row, RowClicks};
use crate::transport::Command;

verus! {

/// The play/pause button shows the pause symbol exactly while the player plays.
pub proof fn lemma_glyph(app: App, r: &'static str)
    requires
        call_ensures(App::toggle_glyph, (&app,), r),
    ensures
        app.player.state is Playing ==> r@ == "⏸"@,
        !(app.player.state is Playing) ==> r@ == "▶"@,
{
}

/// The head of the window tells by its caption whether a track is paused, plays,
/// or none is loaded.
pub proof fn lemma_caption(app: App, r: NowPlaying)
    requires
        call_ensures(App::now_playing, (&app,), r),
    ensures
        app.player.current is None ==> r.caption@ == "STOPPED"@,
        app.player.current is Some && app.player.state is Paused ==> r.caption@ == "PAUSED"@,
        app.player.current is Some && !(app.player.state is Paused) ==> r.caption@
            == "NOW PLAYING"@,
{
}

/// The head of the window shows the first fifteen characters of the name of the
/// loaded track, and of that of the selected one, whatever either is; a dash
/// stands where there is none.
pub proof fn lemma_names_shown(app: App, r: NowPlaying)
    requires
        call_ensures(App::now_playing, (&app,), r),
    ensures
        app.player.current matches Some(name) ==> {
            &&& name@.len() >= 15 ==> r.playing@.len() == 15
            &&& name@.len() <= 15 ==> r.playing@.len() == name@.len()
            &&& forall|i: int| 0 <= i < r.playing@.len() ==> #[trigger] r.playing@[i] == name@[i]
        },
        app.player.current is None ==> r.playing@ == "—"@,
        app.selected matches Some(s) ==> {
            let name = app.tracks@[s as int].name@;
            &&& name.len() >= 15 ==> r.selected@.len() == 15
            &&& name.len() <= 15 ==> r.selected@.len() == name.len()
            &&& forall|i: int| 0 <= i < r.selected@.len() ==> #[trigger] r.selected@[i] == name[i]
        },
        app.selected is None ==> r.selected@ == "—"@,
{
    reveal_strlit("—");
}

/// A row shows the name of its track, can be moved up unless it is the first and
/// down unless it is the last, and is marked exactly where it is selected.
pub proof fn lemma_row(app: App, i: usize, r: Row)
    requires
        call_ensures(App::row, (&app, i), r),
        i < app.tracks@.len(),
    ensures
        r.name@ == app.tracks@[i as int].name@,
        r.can_move_up <==> i != 0,
        r.can_move_down <==> i != app.tracks@.len() - 1,
        r.selected <==> app.selected is Some && app.selected->0 == i,
{
}

/// A click on a row selects its track, whatever the player does and whatever was
/// selected; a single click changes nothing else and asks nothing of the output.
pub proof fn lemma_click_selects(
    app: &mut App,
    i: usize,
    clicks: RowClicks,
    pending: &mut Option<Op>,
    r: Command,
)
    requires
        call_ensures(App::row_input, (app, i, clicks, pending), r),
        clicks.clicked || clicks.double_clicked,
    ensures
        final(app).selected == Some(i),
        !clicks.double_clicked ==> r is Nothing && *final(app) == (App {
            selected: Some(i),
            ..*old(app)
        }),
{
}

/// A double click on a row selects its track, unloads the player whatever it did,
/// and asks for the track to be started afresh; nothing else changes.
pub proof fn lemma_double_click_restarts(
    app: &mut App,
    i: usize,
    clicks: RowClicks,
    pending: &mut Option<Op>,
    r: Command,
)
    requires
        call_ensures(App::row_input, (app, i, clicks, pending), r),
        clicks.double_clicked,
    ensures
        r == Command::Restart(i),
        *final(app) == (App {
            selected: Some(i),
            player: Player { state: PlaybackState::Stopped, current: None },
            ..*old(app)
        }),
{
}

/// Without a click on its name a row changes nothing of the application.
pub proof fn lemma_no_click_no_change(
    app: &mut App,
    i: usize,
    clicks: RowClicks,
    pending: &mut Option<Op>,
    r: Command,
)
    requires
        call_ensures(App::row_input, (app, i, clicks, pending), r),
        !clicks.clicked,
        !clicks.double_clicked,
    ensures
        r is Nothing,
        *final(app) == *old(app),
{
}

/// The edit that a row asks for is noted for its own track, in place of any that
/// was noted before; of several in one row removing counts before moving down,
/// and that before moving up. Without one, what was noted stays.
pub proof fn lemma_edit_noted(
    app: &mut App,
    i: usize,
    clicks: RowClicks,
    pending: &mut Option<Op>,
    r: Command,
)
    requires
        call_ensures(App::row_input, (app, i, clicks, pending), r),
    ensures
        clicks.remove ==> *final(pending) == Some(Op::Remove(i)),
        clicks.down && !clicks.remove ==> *final(pending) == Some(Op::Down(i)),
        clicks.up && !clicks.down && !clicks.remove ==> *final(pending) == Some(Op::Up(i)),
        !clicks.up && !clicks.down && !clicks.remove ==> *final(pending) == *old(pending),
{
}

} // verus!
