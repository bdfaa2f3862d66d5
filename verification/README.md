# clickinaresi

An audio player for live performance. The window shows the currently-playing
track in large text, a transport bar and a list of tracks; the transport can be
driven from a MIDI device, whose keys are bound by "MIDI learn".

- `src/` is the library: the state of the player and the rules by which it
  changes, written and verified in Verus. It performs no input or output. It
  takes what came of it (a file that was read, a port that refused, a MIDI
  message) and says what is to be done (a command for the audio output) and what
  is shown.
- `app/` is the program around it: the window (eframe), the audio output (rodio),
  MIDI input (midir), file dialogs (rfd) and the file system.
- `tests/` are the tests of the library.

| module | what it holds |
| --- | --- |
| `action` | the four transport actions and their identifiers |
| `midi` | bindings of MIDI keys to actions, MIDI learn, incoming messages |
| `stored` | bindings as they are stored, in JSON |
| `json` | JSON documents, through `serde_json` |
| `paths`, `order`, `scan` | which paths are playable, their names and order, scanning a folder |
| `player` | the state of playback |
| `app` | the state of the application, adding tracks |
| `transport` | play/pause, stop, next, previous, the end of a track |
| `edit` | moving and removing tracks |
| `playlist` | loading and saving playlists |
| `ports` | MIDI input ports |
| `settings` | what is kept from one launch to the next |
| `screen` | what is shown, and what clicks in the list do |
| `text` | decimal numbers and prefixes |

What the library takes from `serde_json` and from the standard library without
proof stands in `json`, `paths`, `order`, `scan`, `edit` and `text`; each such item says
what it relies on.
