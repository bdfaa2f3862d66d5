//! Laws of MIDI ports.
use vstd::prelude::*;

use crate::app::App;
use crate::ports::{find_port, ConnectOutcome};
#[allow(unused_imports)]
use crate::ports::{has_named, is_named};

verus! {

/// The first port of a name is found, wherever it stands; nothing is found where
/// no port is known by that name.
pub proof fn lemma_port_found(ports: &Vec<Option<String>>, name: &str, r: Option<usize>, i: int)
    requires
        call_ensures(find_port, (ports, name), r),
    ensures
        0 <= i < ports@.len() && ports@[i] is Some && ports@[i]->0@ == name@ && (forall|j: int|
            0 <= j < i ==> (#[trigger] ports@[j]) is None || ports@[j]->0@ != name@) ==> r is Some
            && r->0 == i,
        (forall|j: int|
            0 <= j < ports@.len() ==> (#[trigger] ports@[j]) is None || ports@[j]->0@ != name@)
            ==> r is None,
{
    assert forall|port: Option<String>| #[trigger]
        is_named(port, name@) <==> port is Some && port->0@ == name@ by {}
    if r is Some {
        assert(is_named(ports@[r->0 as int], name@));
    } else if 0 <= i < ports@.len() {
        assert(!has_named(ports@, name@));
        assert(!is_named(ports@[i], name@));
    }
}

/// After a scan every port is listed, in their order, by its name or as unknown;
/// without a scan none is. Nothing else changes, but that opening the
/// configuration shows it.
pub proof fn lemma_ports_listed(app: &mut App, scan: Option<Vec<Option<String>>>)
    requires
        call_ensures(App::refresh_ports, (app, scan), ()) || call_ensures(
            App::open_config,
            (app, scan),
            (),
        ),
    ensures
        scan is None ==> final(app).midi_ports@.len() == 0,
        scan matches Some(ports) ==> {
            &&& final(app).midi_ports@.len() == ports@.len()
            &&& forall|i: int|
                0 <= i < ports@.len() ==> {
                    &&& ports@[i] is Some ==> (#[trigger] final(app).midi_ports@[i])@
                        == ports@[i]->0@
                    &&& ports@[i] is None ==> final(app).midi_ports@[i]@ == "<unknown>"@
                }
        },
        call_ensures(App::open_config, (app, scan), ()) ==> final(app).show_config,
        *final(app) == (App {
            midi_ports: final(app).midi_ports,
            show_config: final(app).show_config,
            ..*old(app)
        }),
{
}

/// Looking at the ports again does not open or close the configuration.
pub proof fn lemma_refresh_keeps_window(app: &mut App, scan: Option<Vec<Option<String>>>)
    requires
        call_ensures(App::refresh_ports, (app, scan), ()),
    ensures
        final(app).show_config == old(app).show_config,
{
}

/// A port is there exactly where its name is listed.
pub proof fn lemma_port_listed(app: App, name: &str, r: bool)
    requires
        call_ensures(App::has_port, (&app, name), r),
    ensures
        r <==> exists|i: int|
            0 <= i < app.midi_ports@.len() && (#[trigger] app.midi_ports@[i])@ == name@,
{
}

/// Only an attempt that succeeded leaves a connected port, which is the wanted
/// one, whatever was connected before; the status tells what came of it. Nothing
/// else changes.
pub proof fn lemma_connecting_told(app: &mut App, name: &str, outcome: ConnectOutcome)
    requires
        call_ensures(App::connect_port, (app, name, outcome), ()),
    ensures
        outcome is Connected ==> final(app).connected_port is Some
            && final(app).connected_port->0@ == name@ && final(app).status@
            == "Connected to MIDI: "@ + name@,
        outcome is NotFound ==> final(app).connected_port is None && final(app).status@
            == "MIDI port not found: "@ + name@,
        outcome matches ConnectOutcome::NoInput(e) ==> final(app).connected_port is None
            && final(app).status@ == "MIDI error: "@ + e@,
        outcome matches ConnectOutcome::Refused(e) ==> final(app).connected_port is None
            && final(app).status@ == "MIDI connect failed: "@ + e@,
        *final(app) == (App {
            connected_port: final(app).connected_port,
            status: final(app).status,
            ..*old(app)
        }),
{
}

/// The connected port is shown by its name, and is known by that name alone.
pub proof fn lemma_port_shown(app: App, name: &str, text: String, r: bool)
    requires
        call_ensures(App::port_text, (&app,), text),
        call_ensures(App::is_connected_to, (&app, name), r),
    ensures
        app.connected_port matches Some(port) ==> text@ == port@ && (r <==> port@ == name@),
        app.connected_port is None ==> text@ == "(none)"@ && !r,
{
}

} // verus!
