//! The one-shot directory scan's decision core. Walking the filesystem is
//! I/O and happens outside the library; the walk hands each entry over as a
//! plain value and this module decides, verified, which entries become
//! tracked paths and how deep the walk may go.

use vstd::prelude::*;
use vstd::seq_lib::group_filter_ensures;

use crate::classify::{is_media_entry, is_media_name_spec};

verus! {

/// One filesystem entry as the walk reports it: its full path, its file
/// name, its depth below the scan root (the root itself is depth 0), and
/// whether it is a directory. Entries that errored during traversal are
/// skipped by the walk and never reach the library.
pub struct ScanEntry {
    pub path: String,
    pub name: String,
    pub depth: usize,
    pub is_dir: bool,
}

/// The effective depth cap of a scan: an explicit maximum depth overrides
/// everything; otherwise a non-recursive scan is capped at depth 1 and a
/// recursive one is unbounded.
pub open spec fn depth_cap(recursive: bool, max_depth: Option<usize>) -> Option<usize> {
    match max_depth {
        Some(d) => Some(d),
        None => if recursive {
            None
        } else {
            Some(1usize)
        },
    }
}

pub open spec fn depth_ok(depth: usize, cap: Option<usize>) -> bool {
    match cap {
        Some(c) => depth <= c,
        None => true,
    }
}

/// An entry becomes a tracked path exactly when it lies within the depth
/// cap, is not a directory, and its name matches the media allow-list.
pub open spec fn entry_selected(e: ScanEntry, cap: Option<usize>) -> bool {
    depth_ok(e.depth, cap) && !e.is_dir && is_media_name_spec(e.name@)
}

pub open spec fn selected_pred(cap: Option<usize>) -> spec_fn(ScanEntry) -> bool {
    |e: ScanEntry| entry_selected(e, cap)
}

pub open spec fn entry_path_fn() -> spec_fn(ScanEntry) -> Seq<char> {
    |e: ScanEntry| e.path@
}

/// The tracked paths a scan yields: the selected entries' paths, in walk
/// order.
pub open spec fn scan_select_spec(
    entries: Seq<ScanEntry>,
    recursive: bool,
    max_depth: Option<usize>,
) -> Seq<Seq<char>> {
    entries.filter(selected_pred(depth_cap(recursive, max_depth))).map_values(entry_path_fn())
}

/// Executable form of the depth cap.
pub fn effective_depth_cap(recursive: bool, max_depth: Option<usize>) -> (r: Option<usize>)
    ensures
        r == depth_cap(recursive, max_depth),
{
    match max_depth {
        Some(d) => Some(d),
        None => if recursive {
            None
        } else {
            Some(1)
        },
    }
}

/// Selects, from the entries a walk reported, the paths the index tracks.
pub fn scan_select(entries: &Vec<ScanEntry>, recursive: bool, max_depth: Option<usize>) -> (r:
    Vec<String>)
    ensures
        r.deep_view() == scan_select_spec(entries@, recursive, max_depth),
{
    broadcast use group_filter_ensures;

    let cap = effective_depth_cap(recursive, max_depth);
    let ghost whole = entries@;
    let ghost pred = selected_pred(cap);
    let ghost f = entry_path_fn();
    let n = entries.len();
    let mut out: Vec<String> = Vec::new();
    let mut i: usize = 0;
    proof {
        assert(whole.subrange(0, 0) =~= Seq::<ScanEntry>::empty());
        assert(out.deep_view() =~= whole.subrange(0, 0).filter(pred).map_values(f));
    }
    while i < n
        invariant
            n == whole.len(),
            whole == entries@,
            cap == depth_cap(recursive, max_depth),
            pred == selected_pred(cap),
            f == entry_path_fn(),
            i <= n,
            out.deep_view() == whole.subrange(0, i as int).filter(pred).map_values(f),
        decreases n - i,
    {
        let e = &entries[i];
        let depth_fits = match cap {
            Some(c) => e.depth <= c,
            None => true,
        };
        let ghost pre = out.deep_view();
        if depth_fits && is_media_entry(e.is_dir, e.name.as_str()) {
            out.push(e.path.clone());
            proof {
                assert(out.deep_view() =~= pre.push(f(whole[i as int])));
            }
        }
        proof {
            let prefixq = whole.subrange(0, i as int);
            assert(whole.subrange(0, i + 1) =~= prefixq.push(whole[i as int]));
            prefixq.lemma_filter_push(whole[i as int], pred);
            let base = prefixq.filter(pred);
            if pred(whole[i as int]) {
                assert(base.push(whole[i as int]).map_values(f) =~= base.map_values(f).push(
                    f(whole[i as int]),
                ));
            }
        }
        i = i + 1;
    }
    proof {
        assert(whole.subrange(0, n as int) =~= whole);
    }
    out
}

} // verus!
