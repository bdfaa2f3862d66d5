//! Collecting the audio files below a directory.
use std::path::PathBuf;
use vstd::prelude::*;

#[allow(unused_imports)]
use crate::app::audio_paths;
#[allow(unused_imports)]
use crate::order::{lemma_below_ordered, lemma_path_order, parts_le, path_le, path_lt, path_parts};
use crate::paths::is_audio_file;
#[allow(unused_imports)]
use crate::paths::is_audio;

verus! {

/// An entry of a directory, with what was read below it. A file, or a directory
/// that could not be read, has no entries.
pub struct DirEntry {
    pub path: PathBuf,
    pub is_dir: bool,
    pub entries: Vec<DirEntry>,
}

/// Whether `order` holds each index below `n` once.
pub open spec fn is_permutation(order: Seq<int>, n: nat) -> bool {
    &&& order.len() == n
    &&& forall|i: int| 0 <= i < n ==> 0 <= #[trigger] order[i] < n
    &&& forall|i: int, j: int| 0 <= i < j < n ==> #[trigger] order[i] != #[trigger] order[j]
}

/// Whether taking the entries in this order gives them by path.
pub open spec fn sorts(order: Seq<int>, entries: Seq<DirEntry>) -> bool {
    &&& is_permutation(order, entries.len())
    &&& forall|i: int, j: int|
        0 <= i < j < order.len() ==> path_le(
            entries[#[trigger] order[i]].path,
            entries[#[trigger] order[j]].path,
        )
}

/// Whether `found` are the audio files of the entries of a directory: those of
/// each entry, entry by entry in the order of their paths.
pub open spec fn scan_gives(entries: Seq<DirEntry>, found: Seq<PathBuf>) -> bool
    decreases entries,
{
    exists|order: Seq<int>, parts: Seq<Seq<PathBuf>>|
        #![trigger sorts(order, entries), parts.flatten_alt()]
        {
            &&& sorts(order, entries)
            &&& parts.len() == order.len()
            &&& found == parts.flatten_alt()
            &&& forall|i: int|
                0 <= i < order.len() && 0 <= order[i] < entries.len() ==> entry_gives(
                    entries[order[i]],
                    #[trigger] parts[i],
                )
        }
}

/// Whether `found` are the audio files of one entry: the file itself where it is
/// one, or those below the directory.
pub open spec fn entry_gives(entry: DirEntry, found: Seq<PathBuf>) -> bool
    decreases entry,
{
    if entry.is_dir {
        scan_gives(entry.entries@, found)
    } else if is_audio(entry.path) {
        found == seq![entry.path]
    } else {
        found == Seq::<PathBuf>::empty()
    }
}

/// `<[T]>::sort_by_cached_key` of the standard library, by path: the same
/// entries, each once, in the order that `PathBuf` has as `Ord`, which goes
/// component by component.
#[verifier::external_body]
fn sort_by_path(entries: &mut Vec<DirEntry>)
    ensures
        exists|order: Seq<int>|
            {
                &&& #[trigger] is_permutation(order, old(entries)@.len())
                &&& final(entries)@ == order.map_values(|i: int| old(entries)@[i])
            },
        forall|i: int, j: int|
            0 <= i < j < final(entries)@.len() ==> parts_le(
                path_parts((#[trigger] final(entries)@[i]).path),
                path_parts((#[trigger] final(entries)@[j]).path),
            ),
{
    entries.sort_by_cached_key(|entry| entry.path.clone());
}

/// Adds to `out` the audio files among the entries of a directory and below
/// them: depth first, each directory in the order of its paths.
pub fn scan_dir(entries: Vec<DirEntry>, out: &mut Vec<PathBuf>)
    ensures
        exists|found: Seq<PathBuf>| #[trigger]
            scan_gives(entries@, found) && final(out)@ == old(out)@ + found,
    decreases entries,
{
    let ghost given = entries@;
    let ghost before = out@;
    let mut sorted = entries;
    sort_by_path(&mut sorted);
    let ghost order = choose|order: Seq<int>|
        {
            &&& #[trigger] is_permutation(order, given.len())
            &&& sorted@ == order.map_values(|i: int| given[i])
        };
    let ghost all = sorted@;
    let ghost mut parts: Seq<Seq<PathBuf>> = Seq::empty();
    #[verifier::loop_isolation(false)]
    for entry in iter: sorted
        invariant
            iter.seq() == all,
            parts.len() == iter.index(),
            forall|i: int| 0 <= i < parts.len() ==> entry_gives(all[i], #[trigger] parts[i]),
            out@ == before + parts.flatten_alt(),
    {
        let ghost step = out@;
        let ghost part: Seq<PathBuf>;
        let ghost i = iter.index();
        assert(entry == all[i] && entry == given[order[i]]);
        if entry.is_dir {
            scan_dir(entry.entries, out);
            proof {
                part = choose|found: Seq<PathBuf>| #[trigger]
                    scan_gives(all[i].entries@, found) && out@ == step + found;
            }
        } else if is_audio_file(&entry.path) {
            out.push(entry.path);
            proof {
                part = seq![entry.path];
            }
        } else {
            proof {
                part = Seq::empty();
            }
        }
        proof {
            assert(out@ =~= step + part);
            assert(parts.push(part).drop_last() =~= parts);
            assert(before + parts.push(part).flatten_alt() =~= out@);
            parts = parts.push(part);
        }
    }
    proof {
        assert forall|i: int, j: int| 0 <= i < j < order.len() implies path_le(
            given[#[trigger] order[i]].path,
            given[#[trigger] order[j]].path,
        ) by {
            assert(all[i] == given[order[i]] && all[j] == given[order[j]]);
        }
        assert(sorts(order, given));
        assert(scan_gives(given, parts.flatten_alt()));
    }
}

/// Whether a file with this path is among the entries or below them.
pub open spec fn holds_file(entries: Seq<DirEntry>, path: PathBuf) -> bool
    decreases entries,
{
    exists|i: int|
        0 <= i < entries.len() && if (#[trigger] entries[i]).is_dir {
            holds_file(entries[i].entries@, path)
        } else {
            entries[i].path == path
        }
}

/// An item of a flattened sequence is one of a part, and the other way round.
proof fn lemma_flatten_contains(parts: Seq<Seq<PathBuf>>, path: PathBuf)
    ensures
        parts.flatten_alt().contains(path) <==> exists|i: int|
            0 <= i < parts.len() && (#[trigger] parts[i]).contains(path),
    decreases parts.len(),
{
    if parts.len() > 0 {
        let rest = parts.drop_last();
        lemma_flatten_contains(rest, path);
        let front = rest.flatten_alt();
        let all = parts.flatten_alt();
        assert(all == front + parts.last());
        if all.contains(path) {
            let k = choose|k: int| 0 <= k < all.len() && all[k] == path;
            if k < front.len() {
                assert(front[k] == path);
                let i = choose|i: int| 0 <= i < rest.len() && (#[trigger] rest[i]).contains(path);
                assert(parts[i].contains(path));
            } else {
                assert(parts.last()[k - front.len()] == path);
                assert(parts[parts.len() - 1].contains(path));
            }
        }
        if exists|i: int| 0 <= i < parts.len() && (#[trigger] parts[i]).contains(path) {
            let i = choose|i: int| 0 <= i < parts.len() && (#[trigger] parts[i]).contains(path);
            if i < rest.len() {
                assert(rest[i].contains(path));
                let k = choose|k: int| 0 <= k < front.len() && front[k] == path;
                assert(all[k] == path);
            } else {
                let k = choose|k: int| 0 <= k < parts.last().len() && parts.last()[k] == path;
                assert(all[front.len() + k] == path);
            }
        }
    }
}

/// A permutation reaches every index.
proof fn lemma_permutation_reaches(order: Seq<int>, n: nat, k: int)
    requires
        is_permutation(order, n),
        0 <= k < n,
    ensures
        exists|i: int| 0 <= i < n && #[trigger] order[i] == k,
{
    let indices = Set::new(|i: int| 0 <= i < n);
    vstd::set_lib::lemma_int_range(0, n as int);
    assert(indices =~= vstd::set_lib::set_int_range(0, n as int));
    assert(order.no_duplicates());
    order.unique_seq_to_set();
    assert(order.to_set().subset_of(indices)) by {
        assert forall|x: int| order.to_set().contains(x) implies indices.contains(x) by {
            let i = choose|i: int| 0 <= i < order.len() && order[i] == x;
            assert(0 <= order[i] < n);
        }
    }
    vstd::set_lib::lemma_subset_equality(order.to_set(), indices);
    assert(order.to_set().contains(k));
}

/// A scan finds the audio files among the entries and below them, and nothing
/// else.
pub proof fn lemma_scan_complete(entries: Seq<DirEntry>, found: Seq<PathBuf>, path: PathBuf)
    requires
        scan_gives(entries, found),
    ensures
        found.contains(path) <==> is_audio(path) && holds_file(entries, path),
    decreases entries,
{
    let (order, parts) = choose|order: Seq<int>, parts: Seq<Seq<PathBuf>>|
        #![trigger sorts(order, entries), parts.flatten_alt()]
        {
            &&& sorts(order, entries)
            &&& parts.len() == order.len()
            &&& found == parts.flatten_alt()
            &&& forall|i: int|
                0 <= i < order.len() && 0 <= order[i] < entries.len() ==> entry_gives(
                    entries[order[i]],
                    #[trigger] parts[i],
                )
        };
    assert forall|i: int| 0 <= i < parts.len() implies ((#[trigger] parts[i]).contains(path)
        <==> is_audio(path) && if entries[order[i]].is_dir {
        holds_file(entries[order[i]].entries@, path)
    } else {
        entries[order[i]].path == path
    }) by {
        let entry = entries[order[i]];
        assert(entry_gives(entry, parts[i]));
        if entry.is_dir {
            lemma_scan_complete(entry.entries@, parts[i], path);
        } else if is_audio(entry.path) {
            assert(parts[i][0] == entry.path);
        }
    }
    lemma_flatten_contains(parts, path);
    if is_audio(path) && holds_file(entries, path) {
        let k = choose|k: int|
            0 <= k < entries.len() && if (#[trigger] entries[k]).is_dir {
                holds_file(entries[k].entries@, path)
            } else {
                entries[k].path == path
            };
        lemma_permutation_reaches(order, entries.len(), k);
        let i = choose|i: int| 0 <= i < entries.len() && #[trigger] order[i] == k;
        assert(parts[i].contains(path));
    }
}

/// A sequence of audio files only is kept whole when it is filtered for them.
proof fn lemma_all_audio(paths: Seq<PathBuf>)
    requires
        forall|i: int| 0 <= i < paths.len() ==> is_audio(#[trigger] paths[i]),
    ensures
        audio_paths(paths) == paths,
    decreases paths.len(),
{
    reveal(Seq::filter);
    if paths.len() > 0 {
        lemma_all_audio(paths.drop_last());
        assert(is_audio(paths.last()));
        assert(paths.drop_last().push(paths.last()) =~= paths);
    }
}

/// Everything that a scan finds is added when it is added to the list.
pub proof fn lemma_scanned_all_added(entries: Seq<DirEntry>, found: Seq<PathBuf>)
    requires
        scan_gives(entries, found),
    ensures
        audio_paths(found) == found,
{
    assert forall|i: int| 0 <= i < found.len() implies is_audio(#[trigger] found[i]) by {
        lemma_scan_complete(entries, found, found[i]);
        assert(found.contains(found[i]));
    }
    lemma_all_audio(found);
}

/// Whether the entries stand below a directory with these components: each has
/// one component more, no two the same, and so on below every entry.
pub open spec fn stands_below(dir: Seq<Seq<u8>>, entries: Seq<DirEntry>) -> bool
    decreases entries,
{
    &&& forall|i: int|
        0 <= i < entries.len() ==> path_parts((#[trigger] entries[i]).path).len() == dir.len() + 1
            && dir.is_prefix_of(path_parts(entries[i].path))
    &&& forall|i: int, j: int|
        0 <= i < j < entries.len() ==> path_parts((#[trigger] entries[i]).path) != path_parts(
            (#[trigger] entries[j]).path,
        )
    &&& forall|i: int|
        0 <= i < entries.len() ==> stands_below(
            path_parts((#[trigger] entries[i]).path),
            entries[i].entries@,
        )
}

/// Whether each path comes before all that follow.
pub open spec fn increasing(paths: Seq<PathBuf>) -> bool {
    forall|i: int, j: int|
        0 <= i < j < paths.len() ==> path_lt(#[trigger] paths[i], #[trigger] paths[j])
}

/// What is found for an entry stands at or below it.
proof fn lemma_found_below(entry: DirEntry, found: Seq<PathBuf>, path: PathBuf)
    requires
        stands_below(path_parts(entry.path), entry.entries@),
        entry_gives(entry, found),
        found.contains(path),
    ensures
        path_parts(entry.path).is_prefix_of(path_parts(path)),
    decreases entry,
{
    let top = path_parts(entry.path);
    if entry.is_dir {
        let entries = entry.entries@;
        let (order, parts) = choose|order: Seq<int>, parts: Seq<Seq<PathBuf>>|
            #![trigger sorts(order, entries), parts.flatten_alt()]
            {
                &&& sorts(order, entries)
                &&& parts.len() == order.len()
                &&& found == parts.flatten_alt()
                &&& forall|i: int|
                    0 <= i < order.len() && 0 <= order[i] < entries.len() ==> entry_gives(
                        entries[order[i]],
                        #[trigger] parts[i],
                    )
            };
        lemma_flatten_contains(parts, path);
        let i = choose|i: int| 0 <= i < parts.len() && (#[trigger] parts[i]).contains(path);
        let below = entries[order[i]];
        assert(entry_gives(below, parts[i]));
        lemma_found_below(below, parts[i], path);
        let middle = path_parts(below.path);
        let whole = path_parts(path);
        assert forall|k: int| 0 <= k < top.len() implies top[k] == whole[k] by {
            assert(middle.subrange(0, top.len() as int)[k] == middle[k]);
            assert(whole.subrange(0, middle.len() as int)[k] == whole[k]);
        }
        assert(top =~= whole.subrange(0, top.len() as int));
    } else {
        assert(path == entry.path);
        assert(top =~= top.subrange(0, top.len() as int));
    }
}

/// Parts that are increasing, each before all that follow, are increasing when
/// they are put together.
proof fn lemma_flatten_increasing(parts: Seq<Seq<PathBuf>>)
    requires
        forall|i: int| 0 <= i < parts.len() ==> increasing(#[trigger] parts[i]),
        forall|i: int, j: int, a: PathBuf, b: PathBuf|
            0 <= i < j < parts.len() && #[trigger] parts[i].contains(a)
                && #[trigger] parts[j].contains(b) ==> path_lt(a, b),
    ensures
        increasing(parts.flatten_alt()),
    decreases parts.len(),
{
    if parts.len() > 0 {
        let rest = parts.drop_last();
        assert forall|i: int, j: int, a: PathBuf, b: PathBuf|
            0 <= i < j < rest.len() && #[trigger] rest[i].contains(a)
                && #[trigger] rest[j].contains(b) implies path_lt(a, b) by {
            assert(parts[i].contains(a) && parts[j].contains(b));
        }
        lemma_flatten_increasing(rest);
        let front = rest.flatten_alt();
        let last = parts.last();
        let all = parts.flatten_alt();
        assert(all == front + last);
        assert(increasing(parts[parts.len() - 1]));
        assert forall|i: int, j: int| 0 <= i < j < all.len() implies path_lt(
            #[trigger] all[i],
            #[trigger] all[j],
        ) by {
            if j < front.len() {
                assert(all[i] == front[i] && all[j] == front[j]);
            } else if i >= front.len() {
                assert(all[i] == last[i - front.len()] && all[j] == last[j - front.len()]);
            } else {
                assert(front.contains(front[i]));
                lemma_flatten_contains(rest, front[i]);
                let k = choose|k: int| 0 <= k < rest.len() && (#[trigger] rest[k]).contains(front[i]);
                assert(last.contains(last[j - front.len()]));
                assert(parts[k].contains(all[i]) && parts[parts.len() - 1].contains(all[j]));
            }
        }
    }
}

/// What a scan finds comes in the order of paths, across the whole tree and with
/// nothing twice, whatever order the directories were listed in.
pub proof fn lemma_scan_ordered(dir: Seq<Seq<u8>>, entries: Seq<DirEntry>, found: Seq<PathBuf>)
    requires
        stands_below(dir, entries),
        scan_gives(entries, found),
    ensures
        increasing(found),
        forall|i: int, j: int|
            0 <= i < j < found.len() ==> path_le(#[trigger] found[i], #[trigger] found[j])
                && found[i] != found[j],
    decreases entries,
{
    let (order, parts) = choose|order: Seq<int>, parts: Seq<Seq<PathBuf>>|
        #![trigger sorts(order, entries), parts.flatten_alt()]
        {
            &&& sorts(order, entries)
            &&& parts.len() == order.len()
            &&& found == parts.flatten_alt()
            &&& forall|i: int|
                0 <= i < order.len() && 0 <= order[i] < entries.len() ==> entry_gives(
                    entries[order[i]],
                    #[trigger] parts[i],
                )
        };
    assert forall|i: int| 0 <= i < parts.len() implies increasing(#[trigger] parts[i]) by {
        let entry = entries[order[i]];
        assert(entry_gives(entry, parts[i]));
        if entry.is_dir {
            lemma_scan_ordered(path_parts(entry.path), entry.entries@, parts[i]);
        }
    }
    assert forall|i: int, j: int, a: PathBuf, b: PathBuf|
        0 <= i < j < parts.len() && #[trigger] parts[i].contains(a) && #[trigger] parts[j].contains(
            b,
        ) implies path_lt(a, b) by {
        let left = entries[order[i]];
        let right = entries[order[j]];
        assert(entry_gives(left, parts[i]) && entry_gives(right, parts[j]));
        lemma_found_below(left, parts[i], a);
        lemma_found_below(right, parts[j], b);
        let lp = path_parts(left.path);
        let rp = path_parts(right.path);
        assert(order[i] != order[j]);
        assert(lp != rp);
        assert(path_le(left.path, right.path));
        let n = dir.len() as int;
        assert(lp =~= dir.push(lp[n])) by {
            assert forall|k: int| 0 <= k < n implies lp[k] == dir[k] by {
                assert(lp.subrange(0, n)[k] == lp[k]);
            }
        }
        assert(rp =~= dir.push(rp[n])) by {
            assert forall|k: int| 0 <= k < n implies rp[k] == dir[k] by {
                assert(rp.subrange(0, n)[k] == rp[k]);
            }
        }
        lemma_below_ordered(dir, lp[n], rp[n], path_parts(a), path_parts(b));
    }
    lemma_flatten_increasing(parts);
    assert forall|i: int, j: int| 0 <= i < j < found.len() implies path_le(
        #[trigger] found[i],
        #[trigger] found[j],
    ) && found[i] != found[j] by {
        lemma_path_order(found[i], found[j], found[j]);
    }
}

} // verus!
