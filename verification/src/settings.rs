//! What is kept from one launch to the next.
use vstd::prelude::*;

use crate::app::App;
use crate::midi::MidiBindings;
#[allow(unused_imports)]
use crate::json::spelled;
#[allow(unused_imports)]
use crate::midi::Binding;
use crate::paths;
#[allow(unused_imports)]
use crate::paths::{is_exact, path_from, path_text};
#[allow(unused_imports)]
use crate::playlist::playlist_opened;
#[allow(unused_imports)]
use crate::ports::{lists_name, lists_scan};
use crate::stored::{bindings_from_json, bindings_to_json};
#[allow(unused_imports)]
use crate::stored::{bindings_in, records_of};

verus! {

/// Storage keys under which state is persisted across launches.
pub const LAST_PLAYLIST_KEY: &'static str = "last_playlist";

pub const MIDI_BINDINGS_KEY: &'static str = "midi_bindings";

pub const MIDI_PORT_KEY: &'static str = "midi_port";

pub const VOLUME_KEY: &'static str = "volume_db";

/// A key and the value to be stored under it.
pub type Entry = (&'static str, String);

/// What was found on launch: the stored values, and what they led to.
#[derive(Debug)]
pub struct Found {
    /// The path of the last playlist.
    pub last_playlist: Option<String>,
    /// What reading that playlist gave; nothing where it no longer exists.
    pub playlist_read: Option<Result<String, String>>,
    pub midi_bindings: Option<String>,
    pub midi_port: Option<String>,
    /// What a scan for ports gave; it counts only where a port is stored.
    pub ports: Option<Vec<Option<String>>>,
}

/// Entries by their characters.
pub open spec fn entry_texts(entries: Seq<Entry>) -> Seq<(Seq<char>, Seq<char>)> {
    entries.map_values(|e: Entry| (e.0@, e.1@))
}

/// One entry, where there is a value for it.
pub open spec fn entry_if(key: Seq<char>, value: Option<Seq<char>>) -> Seq<
    (Seq<char>, Seq<char>),
> {
    match value {
        Some(value) => seq![(key, value)],
        None => Seq::empty(),
    }
}

/// The entries that persist the application, these bindings and this volume.
pub open spec fn saved_entries(app: App, map: Seq<Binding>, volume: Seq<char>) -> Seq<
    (Seq<char>, Seq<char>),
> {
    entry_if(
        LAST_PLAYLIST_KEY@,
        match app.current_playlist {
            Some(path) => Some(path_text(path)),
            None => None,
        },
    ) + seq![(MIDI_BINDINGS_KEY@, spelled(records_of(map)))] + entry_if(
        MIDI_PORT_KEY@,
        match app.connected_port {
            Some(port) => Some(port@),
            None => None,
        },
    ) + seq![(VOLUME_KEY@, volume)]
}

/// Whether what is stored stands for what it was made from: the bindings, and
/// the path of the playlist where its text is exact.
pub open spec fn reads_back(app: App, map: Seq<Binding>) -> bool {
    &&& bindings_in(spelled(records_of(map))) == map
    &&& app.current_playlist matches Some(path) ==> is_exact(path_text(path)) ==> path_from(
        path_text(path),
    ) == path
}

/// A store after these entries were set in it, one after the other.
pub open spec fn stored(
    store: Map<Seq<char>, Seq<char>>,
    entries: Seq<(Seq<char>, Seq<char>)>,
) -> Map<Seq<char>, Seq<char>>
    decreases entries.len(),
{
    if entries.len() == 0 {
        store
    } else {
        stored(store, entries.drop_last()).insert(entries.last().0, entries.last().1)
    }
}

impl App {
    /// The entries to be stored: the path of the currently-open playlist, so
    /// that it can be reloaded on the next launch, the bindings, the connected
    /// port, and the volume. Where no playlist is open or no port connected,
    /// what was stored of it is left.
    pub fn save(&self, bindings: &MidiBindings, volume: String) -> (r: Vec<Entry>)
        ensures
            entry_texts(r@) == saved_entries(*self, bindings.map@, volume@),
            reads_back(*self, bindings.map@),
    {
        let mut entries: Vec<Entry> = Vec::new();
        if let Some(path) = &self.current_playlist {
            entries.push((LAST_PLAYLIST_KEY, paths::text_of(path)));
        }
        entries.push((MIDI_BINDINGS_KEY, bindings_to_json(bindings.map.as_slice())));
        if let Some(port) = &self.connected_port {
            entries.push((MIDI_PORT_KEY, port.clone()));
        }
        entries.push((VOLUME_KEY, volume));
        assert(entry_texts(entries@) =~= saved_entries(*self, bindings.map@, volume@));
        entries
    }

    /// Takes over what was found on launch: reloads the last playlist if it
    /// still exists, restores the saved bindings, and looks for the last-used
    /// port. Returns that port, to be reconnected to, if it is present.
    pub fn restore(&mut self, bindings: &mut MidiBindings, found: Found) -> (r: Option<String>)
        requires
            old(self).wf(),
        ensures
            final(self).wf(),
            old(self).in_step() ==> final(self).in_step(),
            match (found.last_playlist, found.playlist_read) {
                (Some(path), Some(read)) => playlist_opened(
                    *old(self),
                    (App { midi_ports: old(self).midi_ports, ..*final(self) }),
                    path_from(path@),
                    read,
                ),
                _ => *final(self) == (App { midi_ports: final(self).midi_ports, ..*old(self) }),
            },
            final(bindings).learning == old(bindings).learning,
            final(bindings).map@ == match found.midi_bindings {
                Some(text) => bindings_in(text@),
                None => old(bindings).map@,
            },
            match found.midi_port {
                Some(port) => {
                    &&& lists_scan(final(self).midi_ports@, found.ports)
                    &&& r == if lists_name(final(self).midi_ports@, port@) {
                        Some(port)
                    } else {
                        None
                    }
                },
                None => final(self).midi_ports == old(self).midi_ports && r is None,
            },
    {
        match (found.last_playlist, found.playlist_read) {
            (Some(path), Some(read)) => self.load_playlist(paths::from_text(path), read),
            _ => {},
        }
        if let Some(text) = found.midi_bindings {
            bindings.map = bindings_from_json(text.as_str());
        }
        match found.midi_port {
            Some(port) => {
                self.refresh_ports(found.ports);
                if self.has_port(port.as_str()) {
                    Some(port)
                } else {
                    None
                }
            },
            None => None,
        }
    }
}

/// The four keys differ.
proof fn lemma_keys_differ()
    ensures
        LAST_PLAYLIST_KEY@ != MIDI_BINDINGS_KEY@,
        LAST_PLAYLIST_KEY@ != MIDI_PORT_KEY@,
        LAST_PLAYLIST_KEY@ != VOLUME_KEY@,
        MIDI_BINDINGS_KEY@ != MIDI_PORT_KEY@,
        MIDI_BINDINGS_KEY@ != VOLUME_KEY@,
        MIDI_PORT_KEY@ != VOLUME_KEY@,
{
    reveal_strlit("last_playlist");
    reveal_strlit("midi_bindings");
    reveal_strlit("midi_port");
    reveal_strlit("volume_db");
    assert("last_playlist"@[0] == 'l' && "midi_bindings"@[0] == 'm' && "midi_port"@[0] == 'm'
        && "volume_db"@[0] == 'v');
    assert("midi_bindings"@.len() == 13 && "midi_port"@.len() == 9);
}

/// After saving, the store gives back what was saved: under each key the value
/// of now, or the value of before where there is none, and nothing else was
/// touched.
pub proof fn lemma_saved_is_stored(
    store: Map<Seq<char>, Seq<char>>,
    app: App,
    map: Seq<Binding>,
    volume: Seq<char>,
)
    ensures
        ({
            let after = stored(store, saved_entries(app, map, volume));
            &&& after.contains_key(MIDI_BINDINGS_KEY@)
            &&& after[MIDI_BINDINGS_KEY@] == spelled(records_of(map))
            &&& after.contains_key(VOLUME_KEY@)
            &&& after[VOLUME_KEY@] == volume
            &&& app.current_playlist matches Some(path) ==> after.contains_key(LAST_PLAYLIST_KEY@)
                && after[LAST_PLAYLIST_KEY@] == path_text(path)
            &&& app.connected_port matches Some(port) ==> after.contains_key(MIDI_PORT_KEY@)
                && after[MIDI_PORT_KEY@] == port@
            &&& app.current_playlist is None ==> after.contains_key(LAST_PLAYLIST_KEY@)
                == store.contains_key(LAST_PLAYLIST_KEY@) && after[LAST_PLAYLIST_KEY@]
                == store[LAST_PLAYLIST_KEY@]
            &&& app.connected_port is None ==> after.contains_key(MIDI_PORT_KEY@)
                == store.contains_key(MIDI_PORT_KEY@) && after[MIDI_PORT_KEY@]
                == store[MIDI_PORT_KEY@]
            &&& forall|key: Seq<char>|
                key != LAST_PLAYLIST_KEY@ && key != MIDI_BINDINGS_KEY@ && key != MIDI_PORT_KEY@
                    && key != VOLUME_KEY@ ==> (#[trigger] after.contains_key(key)
                    == store.contains_key(key) && after[key] == store[key])
        }),
{
    lemma_keys_differ();
    let entries = saved_entries(app, map, volume);
    reveal_with_fuel(stored, 5);
    let first = entries.drop_last();
    let second = first.drop_last();
    let third = second.drop_last();
    if app.current_playlist is Some && app.connected_port is Some {
        assert(entries.len() == 4);
        assert(third.drop_last() =~= Seq::empty());
    } else if app.current_playlist is None && app.connected_port is None {
        assert(entries.len() == 2);
        assert(second =~= Seq::empty());
    } else {
        assert(entries.len() == 3);
        assert(third =~= Seq::empty());
    }
}

/// What is restored from the store after saving is what was saved: the same
/// bindings, the same port, and the same playlist where its path is the one that
/// its text denotes, as it is where the text is exact.
pub proof fn lemma_saved_is_restored(
    store: Map<Seq<char>, Seq<char>>,
    app: App,
    map: Seq<Binding>,
    volume: Seq<char>,
)
    requires
        reads_back(app, map),
    ensures
        ({
            let after = stored(store, saved_entries(app, map, volume));
            &&& bindings_in(after[MIDI_BINDINGS_KEY@]) == map
            &&& app.connected_port matches Some(port) ==> after[MIDI_PORT_KEY@] == port@
            &&& app.current_playlist matches Some(path) ==> is_exact(path_text(path)) || path_from(
                path_text(path),
            ) == path ==> path_from(after[LAST_PLAYLIST_KEY@]) == path
        }),
{
    lemma_saved_is_stored(store, app, map, volume);
}

} // verus!
