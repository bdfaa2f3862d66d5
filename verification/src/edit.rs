//! Editing the playlist: moving and removing tracks.
//!
//! These change the track list, so they keep `selected` and `playing_index`
//! pointing at the same tracks; otherwise play/resume would act on the wrong
//! track.
use vstd::prelude::*;

use crate::app::App;
#[allow(unused_imports)]
use crate::app::Track;

verus! {

/// `<[T]>::swap` of the standard library: the two items change places.
pub assume_specification<T>[ <[T]>::swap ](slice: &mut [T], a: usize, b: usize)
    requires
        a < old(slice)@.len(),
        b < old(slice)@.len(),
    ensures
        final(slice)@ == swapped(old(slice)@, a as int, b as int),
;

/// The sequence with two items in each other's place.
pub open spec fn swapped<A>(s: Seq<A>, a: int, b: int) -> Seq<A> {
    s.update(a, s[b]).update(b, s[a])
}

/// The tracks, and what points into them.
#[verifier::ext_equal]
pub ghost struct Listing {
    pub tracks: Seq<Track>,
    pub selected: Option<usize>,
    pub playing: Option<usize>,
}

impl Listing {
    /// The track that an index points at, if it points at one.
    pub open spec fn at(self, index: Option<usize>) -> Option<Track> {
        match index {
            Some(i) if i < self.tracks.len() => Some(self.tracks[i as int]),
            _ => None,
        }
    }

    /// After two tracks changed places.
    pub open spec fn swap(self, a: usize, b: usize) -> Listing {
        Listing {
            tracks: swapped(self.tracks, a as int, b as int),
            selected: follow_swap(self.selected, a, b),
            playing: follow_swap(self.playing, a, b),
        }
    }

    /// After a track was moved up; the first one stays.
    pub open spec fn move_up(self, i: usize) -> Listing {
        if i > 0 {
            self.swap(i, (i - 1) as usize)
        } else {
            self
        }
    }

    /// After a track was moved down; the last one stays.
    pub open spec fn move_down(self, i: usize) -> Listing {
        if i + 1 < self.tracks.len() {
            self.swap(i, (i + 1) as usize)
        } else {
            self
        }
    }

    /// After a track was removed. The selection keeps its track; where that was
    /// the removed one it keeps its slot, or takes the last, or none where no
    /// track is left. The removed track is no longer the loaded one.
    pub open spec fn remove(self, i: usize) -> Listing {
        if i >= self.tracks.len() {
            self
        } else {
            let len = self.tracks.len() - 1;
            Listing {
                tracks: self.tracks.remove(i as int),
                selected: if len == 0 {
                    None
                } else {
                    match self.selected {
                        Some(s) if s == i => Some(if s < len {
                            s
                        } else {
                            (len - 1) as usize
                        }),
                        Some(s) if s > i => Some((s - 1) as usize),
                        other => other,
                    }
                },
                playing: match self.playing {
                    Some(p) if p == i => None,
                    Some(p) if p > i => Some((p - 1) as usize),
                    other => other,
                },
            }
        }
    }
}

/// Where an index points after the items at `a` and `b` changed places.
pub open spec fn follow_swap(index: Option<usize>, a: usize, b: usize) -> Option<usize> {
    match index {
        Some(i) if i == a => Some(b),
        Some(i) if i == b => Some(a),
        other => other,
    }
}

fn followed(index: Option<usize>, a: usize, b: usize) -> (r: Option<usize>)
    ensures
        r == follow_swap(index, a, b),
{
    match index {
        Some(i) if i == a => Some(b),
        Some(i) if i == b => Some(a),
        other => other,
    }
}

impl App {
    /// The tracks, and what points into them.
    pub open spec fn listing(self) -> Listing {
        Listing { tracks: self.tracks@, selected: self.selected, playing: self.playing_index }
    }

    /// Whether nothing but the listing differs.
    pub open spec fn same_but_listing(self, other: App) -> bool {
        self == (App {
            tracks: self.tracks,
            selected: self.selected,
            playing_index: self.playing_index,
            ..other
        })
    }

    pub fn swap_tracks(&mut self, a: usize, b: usize)
        requires
            old(self).wf(),
            a < old(self).tracks@.len(),
            b < old(self).tracks@.len(),
        ensures
            final(self).wf(),
            old(self).in_step() ==> final(self).in_step(),
            final(self).listing() == old(self).listing().swap(a, b),
            final(self).same_but_listing(*old(self)),
    {
        self.tracks.swap(a, b);
        self.selected = followed(self.selected, a, b);
        self.playing_index = followed(self.playing_index, a, b);
    }

    pub fn move_up(&mut self, i: usize)
        requires
            old(self).wf(),
            i == 0 || i < old(self).tracks@.len(),
        ensures
            final(self).wf(),
            old(self).in_step() ==> final(self).in_step(),
            final(self).listing() == old(self).listing().move_up(i),
            final(self).same_but_listing(*old(self)),
    {
        if i > 0 {
            self.swap_tracks(i, i - 1);
        }
    }

    pub fn move_down(&mut self, i: usize)
        requires
            old(self).wf(),
            i < usize::MAX,
        ensures
            final(self).wf(),
            old(self).in_step() ==> final(self).in_step(),
            final(self).listing() == old(self).listing().move_down(i),
            final(self).same_but_listing(*old(self)),
    {
        if i + 1 < self.tracks.len() {
            self.swap_tracks(i, i + 1);
        }
    }

    pub fn remove_track(&mut self, i: usize)
        requires
            old(self).wf(),
        ensures
            final(self).wf(),
            old(self).in_step() ==> final(self).in_step(),
            final(self).listing() == old(self).listing().remove(i),
            final(self).same_but_listing(*old(self)),
    {
        if i >= self.tracks.len() {
            return;
        }
        self.tracks.remove(i);
        let len = self.tracks.len();

        // Keep a sensible selection: same slot, clamped, or nothing if empty.
        self.selected = if len == 0 {
            None
        } else {
            match self.selected {
                Some(s) if s == i => Some(if s < len - 1 {
                    s
                } else {
                    len - 1
                }),
                Some(s) if s > i => Some(s - 1),
                other => other,
            }
        };

        // The loaded track keeps playing even if removed from the list, but it
        // is no longer addressable by index, so resume-by-selection is dropped.
        self.playing_index = match self.playing_index {
            Some(p) if p == i => None,
            Some(p) if p > i => Some(p - 1),
            other => other,
        };
    }
}

/// Moving tracks keeps the selection and the loaded index at their tracks.
pub proof fn lemma_swap_keeps_tracks(listing: Listing, a: usize, b: usize)
    requires
        a < listing.tracks.len(),
        b < listing.tracks.len(),
    ensures
        listing.swap(a, b).at(listing.swap(a, b).selected) == listing.at(listing.selected),
        listing.swap(a, b).at(listing.swap(a, b).playing) == listing.at(listing.playing),
{
}

/// Swapping the same two tracks again undoes it.
pub proof fn lemma_swap_undone(listing: Listing, a: usize, b: usize)
    requires
        a < listing.tracks.len(),
        b < listing.tracks.len(),
    ensures
        listing.swap(a, b).swap(a, b) == listing,
        listing.swap(a, b) == listing.swap(b, a),
{
    assert(listing.swap(a, b).swap(a, b).tracks =~= listing.tracks);
    assert(listing.swap(a, b).tracks =~= listing.swap(b, a).tracks);
}

/// Moving a track up and then down from where it went undoes it, and the other
/// way round.
pub proof fn lemma_move_undone(listing: Listing, i: usize)
    requires
        i < listing.tracks.len() <= usize::MAX,
    ensures
        i > 0 ==> listing.move_up(i).move_down((i - 1) as usize) == listing,
        i + 1 < listing.tracks.len() ==> listing.move_down(i).move_up((i + 1) as usize) == listing,
{
    if i > 0 {
        lemma_swap_undone(listing, i, (i - 1) as usize);
        lemma_swap_undone(listing.swap(i, (i - 1) as usize), i, (i - 1) as usize);
    }
    if i + 1 < listing.tracks.len() {
        lemma_swap_undone(listing, i, (i + 1) as usize);
        lemma_swap_undone(listing.swap(i, (i + 1) as usize), i, (i + 1) as usize);
    }
}

/// Removing a track keeps an index at its track, unless that was the removed
/// one: then the loaded index is dropped, and the selection takes the track that
/// moved into the slot, or the last one.
pub proof fn lemma_remove_keeps_tracks(listing: Listing, i: usize)
    requires
        i < listing.tracks.len(),
    ensures
        ({
            let after = listing.remove(i);
            &&& listing.playing matches Some(p) ==> p != i ==> after.at(after.playing)
                == listing.at(listing.playing)
            &&& listing.playing == Some(i) ==> after.playing is None
            &&& listing.selected matches Some(s) ==> s != i && s < listing.tracks.len()
                ==> after.at(after.selected) == listing.at(listing.selected)
            &&& listing.selected == Some(i) && i + 1 < listing.tracks.len() ==> after.at(
                after.selected,
            ) == Some(listing.tracks[i + 1])
            &&& listing.selected == Some(i) && 0 < i && i + 1 == listing.tracks.len() ==> after.at(
                after.selected,
            ) == Some(listing.tracks[i - 1])
            &&& listing.tracks.len() == 1 ==> after.selected is None
        }),
{
}

} // verus!
