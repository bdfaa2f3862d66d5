//! Laws of paths, scanning, and adding tracks.
use std::path::PathBuf;
use vstd::prelude::*;

use crate::app::App;
#[allow(unused_imports)]
use crate::app::{audio_paths, listed, track_of, tracks_of};
#[allow(unused_imports)]
use crate::order::{parts_lt, path_parts};
use crate::paths::{display_name, is_audio_extension, is_audio_file};
#[allow(unused_imports)]
use crate::paths::{
    ascii_lower, is_audio, lowercase, path_extension, path_file_name, path_shown,
};
use crate::scan::{scan_dir, DirEntry};
#[allow(unused_imports)]
use crate::scan::{
    holds_file, lemma_scan_complete, lemma_scan_ordered, scan_gives, stands_below,
};
#[allow(unused_imports)]
use crate::text::decimal;
use vstd::utf8::is_ascii_chars;

verus! {

/// An extension is playable exactly where it is one of four in lower case.
pub proof fn lemma_playable_extensions(extension: &str, r: bool)
    requires
        call_ensures(is_audio_extension, (extension,), r),
    ensures
        r <==> lowercase(extension@) == "mp3"@ || lowercase(extension@) == "wav"@ || lowercase(
            extension@,
        ) == "flac"@ || lowercase(extension@) == "ogg"@,
{
}

/// The four extensions count as they are and in capitals.
pub proof fn lemma_capitals_count(extension: &str, r: bool)
    requires
        call_ensures(is_audio_extension, (extension,), r),
        extension@ == "mp3"@ || extension@ == "MP3"@ || extension@ == "wav"@ || extension@
            == "WAV"@ || extension@ == "flac"@ || extension@ == "FLAC"@ || extension@ == "ogg"@
            || extension@ == "OGG"@,
    ensures
        r,
{
    reveal_strlit("mp3");
    reveal_strlit("MP3");
    reveal_strlit("wav");
    reveal_strlit("WAV");
    reveal_strlit("flac");
    reveal_strlit("FLAC");
    reveal_strlit("ogg");
    reveal_strlit("OGG");
    let lower = extension@.map_values(|c: char| ascii_lower(c));
    assert(is_ascii_chars(extension@));
    assert(lower =~= "mp3"@ || lower =~= "wav"@ || lower =~= "flac"@ || lower =~= "ogg"@);
}

/// A path is that of a playable file exactly where it has an extension that is
/// one of four in lower case.
pub proof fn lemma_playable_paths(path: &PathBuf, r: bool)
    requires
        call_ensures(is_audio_file, (path,), r),
    ensures
        path_extension(*path) is None ==> !r,
        path_extension(*path) matches Some(e) ==> (r <==> lowercase(e) == "mp3"@ || lowercase(e)
            == "wav"@ || lowercase(e) == "flac"@ || lowercase(e) == "ogg"@),
{
}

/// A path is listed under its file name, or else as it is shown.
pub proof fn lemma_listed_name(path: &PathBuf, r: String)
    requires
        call_ensures(display_name, (path,), r),
    ensures
        path_file_name(*path) matches Some(name) ==> r@ == name,
        path_file_name(*path) is None ==> r@ == path_shown(*path),
{
}

/// A new application has no tracks, no selection, and plays nothing.
pub proof fn lemma_new_application(r: App)
    requires
        call_ensures(App::new, (), r),
    ensures
        r.tracks@.len() == 0,
        r.selected is None,
        r.player.state is Stopped,
        r.player.current is None,
        r.current_playlist is None,
        r.playing_index is None,
        r.connected_port is None,
        r.midi_ports@.len() == 0,
        r.status@.len() == 0,
        !r.show_config,
        !r.did_maximize,
{
}

/// Adding leaves the tracks there were in their places, and appends a track for
/// every playable path, in their order, under its file name or else as it is
/// shown.
pub proof fn lemma_added_tracks(app: &mut App, paths: Vec<PathBuf>)
    requires
        call_ensures(App::add_paths, (app, paths), ()),
    ensures
        ({
            let playable = paths@.filter(
                |p: PathBuf|
                    path_extension(p) is Some && (lowercase(path_extension(p)->0) == "mp3"@
                        || lowercase(path_extension(p)->0) == "wav"@ || lowercase(
                        path_extension(p)->0,
                    ) == "flac"@ || lowercase(path_extension(p)->0) == "ogg"@),
            );
            let before = old(app).tracks@;
            let after = final(app).tracks@;
            &&& after.len() == before.len() + playable.len()
            &&& forall|i: int|
                0 <= i < before.len() ==> (#[trigger] after[i]).path == before[i].path
                    && after[i].name@ == before[i].name@
            &&& forall|i: int|
                before.len() <= i < after.len() ==> {
                    let path = playable[i - before.len()];
                    &&& (#[trigger] after[i]).path == path
                    &&& path_file_name(path) matches Some(name) ==> after[i].name@ == name
                    &&& path_file_name(path) is None ==> after[i].name@ == path_shown(path)
                }
            &&& final(app).status@ == "Added "@ + decimal(playable.len()) + " track(s)"@
        }),
        old(app).selected is Some ==> final(app).selected == old(app).selected,
        old(app).selected is None && final(app).tracks@.len() > 0 ==> final(app).selected == Some(
            0usize,
        ),
        old(app).selected is None && final(app).tracks@.len() == 0 ==> final(app).selected is None,
        *final(app) == (App {
            tracks: final(app).tracks,
            selected: final(app).selected,
            status: final(app).status,
            ..*old(app)
        }),
{
    let keep = |p: PathBuf|
        path_extension(p) is Some && (lowercase(path_extension(p)->0) == "mp3"@ || lowercase(
            path_extension(p)->0,
        ) == "wav"@ || lowercase(path_extension(p)->0) == "flac"@ || lowercase(path_extension(p)->0)
            == "ogg"@);
    assert(keep =~= (|p: PathBuf| is_audio(p)));
    let playable = paths@.filter(keep);
    assert(playable == audio_paths(paths@));
    let before = old(app).tracks@;
    let after = final(app).tracks@;
    let whole = listed(before) + tracks_of(playable);
    assert(listed(after) == whole);
    assert(listed(after).len() == after.len());
    assert forall|i: int| 0 <= i < after.len() implies (#[trigger] after[i])@ == whole[i] by {
        assert(listed(after)[i] == whole[i]);
    }
    assert forall|i: int| 0 <= i < before.len() implies (#[trigger] after[i]).path
        == before[i].path && after[i].name@ == before[i].name@ by {
        assert(after[i]@ == whole[i]);
        assert(whole[i] == before[i]@);
    }
    assert forall|i: int| before.len() <= i < after.len() implies {
        let path = playable[i - before.len()];
        &&& (#[trigger] after[i]).path == path
        &&& path_file_name(path) matches Some(name) ==> after[i].name@ == name
        &&& path_file_name(path) is None ==> after[i].name@ == path_shown(path)
    } by {
        assert(after[i]@ == whole[i]);
        assert(whole[i] == track_of(playable[i - before.len()]));
    }
}

/// A scan keeps what was there before, and adds every file among the entries that
/// is playable, wherever it stands.
pub proof fn lemma_scan_adds(entries: Vec<DirEntry>, out: &mut Vec<PathBuf>, i: int)
    requires
        call_ensures(scan_dir, (entries, out), ()),
        0 <= i < entries@.len(),
    ensures
        final(out)@.len() >= old(out)@.len(),
        final(out)@.take(old(out)@.len() as int) == old(out)@,
        !entries@[i].is_dir && path_extension(entries@[i].path) is Some && lowercase(
            path_extension(entries@[i].path)->0,
        ) == "mp3"@ ==> final(out)@.skip(old(out)@.len() as int).contains(entries@[i].path),
        !entries@[i].is_dir && path_extension(entries@[i].path) is Some && lowercase(
            path_extension(entries@[i].path)->0,
        ) == "wav"@ ==> final(out)@.skip(old(out)@.len() as int).contains(entries@[i].path),
        !entries@[i].is_dir && path_extension(entries@[i].path) is Some && lowercase(
            path_extension(entries@[i].path)->0,
        ) == "flac"@ ==> final(out)@.skip(old(out)@.len() as int).contains(entries@[i].path),
        !entries@[i].is_dir && path_extension(entries@[i].path) is Some && lowercase(
            path_extension(entries@[i].path)->0,
        ) == "ogg"@ ==> final(out)@.skip(old(out)@.len() as int).contains(entries@[i].path),
{
    let found = choose|found: Seq<PathBuf>| #[trigger]
        scan_gives(entries@, found) && final(out)@ == old(out)@ + found;
    assert(final(out)@.take(old(out)@.len() as int) =~= old(out)@);
    assert(final(out)@.skip(old(out)@.len() as int) =~= found);
    lemma_scan_complete(entries@, found, entries@[i].path);
}

/// What a scan of a directory among the entries adds, a scan of the entries adds
/// too.
pub proof fn lemma_scan_goes_below(
    entries: Vec<DirEntry>,
    out: &mut Vec<PathBuf>,
    below: &mut Vec<PathBuf>,
    i: int,
    path: PathBuf,
)
    requires
        0 <= i < entries@.len(),
        entries@[i].is_dir,
        call_ensures(scan_dir, (entries, out), ()),
        call_ensures(scan_dir, (entries@[i].entries, below), ()),
        final(below)@.skip(old(below)@.len() as int).contains(path),
    ensures
        final(out)@.skip(old(out)@.len() as int).contains(path),
{
    let found = choose|found: Seq<PathBuf>| #[trigger]
        scan_gives(entries@, found) && final(out)@ == old(out)@ + found;
    let part = choose|part: Seq<PathBuf>| #[trigger]
        scan_gives(entries@[i].entries@, part) && final(below)@ == old(below)@ + part;
    assert(final(out)@.skip(old(out)@.len() as int) =~= found);
    assert(final(below)@.skip(old(below)@.len() as int) =~= part);
    lemma_scan_complete(entries@[i].entries@, part, path);
    lemma_scan_complete(entries@, found, path);
    assert(holds_file(entries@, path));
}

/// Whatever a scan adds is playable, and is a file among the entries or stands
/// below a directory among them.
pub proof fn lemma_scan_adds_no_other(entries: Vec<DirEntry>, out: &mut Vec<PathBuf>, path: PathBuf)
    requires
        call_ensures(scan_dir, (entries, out), ()),
        final(out)@.skip(old(out)@.len() as int).contains(path),
    ensures
        path_extension(path) is Some,
        lowercase(path_extension(path)->0) == "mp3"@ || lowercase(path_extension(path)->0)
            == "wav"@ || lowercase(path_extension(path)->0) == "flac"@ || lowercase(
            path_extension(path)->0,
        ) == "ogg"@,
        exists|i: int|
            0 <= i < entries@.len() && ((#[trigger] entries@[i]).is_dir && holds_file(
                entries@[i].entries@,
                path,
            ) || !entries@[i].is_dir && entries@[i].path == path),
{
    let found = choose|found: Seq<PathBuf>| #[trigger]
        scan_gives(entries@, found) && final(out)@ == old(out)@ + found;
    assert(final(out)@.skip(old(out)@.len() as int) =~= found);
    lemma_scan_complete(entries@, found, path);
}

/// In whatever order directories were listed, what a scan adds comes in the order
/// of paths, from the first to the last, and nothing is added twice.
pub proof fn lemma_scan_in_order(
    dir: Seq<Seq<u8>>,
    entries: Vec<DirEntry>,
    out: &mut Vec<PathBuf>,
)
    requires
        call_ensures(scan_dir, (entries, out), ()),
        stands_below(dir, entries@),
    ensures
        forall|i: int, j: int|
            old(out)@.len() <= i < j < final(out)@.len() ==> parts_lt(
                path_parts(#[trigger] final(out)@[i]),
                path_parts(#[trigger] final(out)@[j]),
            ) && final(out)@[i] != final(out)@[j],
{
    let found = choose|found: Seq<PathBuf>| #[trigger]
        scan_gives(entries@, found) && final(out)@ == old(out)@ + found;
    lemma_scan_ordered(dir, entries@, found);
    let n = old(out)@.len() as int;
    assert forall|i: int, j: int| n <= i < j < final(out)@.len() implies parts_lt(
        path_parts(#[trigger] final(out)@[i]),
        path_parts(#[trigger] final(out)@[j]),
    ) && final(out)@[i] != final(out)@[j] by {
        assert(final(out)@[i] == found[i - n] && final(out)@[j] == found[j - n]);
    }
}

} // verus!
