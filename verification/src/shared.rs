//! The registry behind a verified reader/writer lock: many concurrent
//! readers, one writer. The lock's invariant is the index's
//! well-formedness, so every value that ever sits in the lock is
//! duplicate-free, whatever order the scan, the watch consumer and the
//! query-serving readers interleave in. The lock is held only for the
//! in-memory mutation or copy, never across probing or encoding.

use vstd::prelude::*;
use vstd::rwlock::{RwLock, RwLockPredicate};

use crate::classify::path_has_thumbnail_marker;
use crate::index::{lemma_sources_no_thumbnail, unique_seq, IndexEvent, LiveIndex};

verus! {

/// The lock invariant: whatever sits in the lock is a well-formed index.
pub struct WfIndex;

impl RwLockPredicate<LiveIndex> for WfIndex {
    open spec fn inv(self, v: LiveIndex) -> bool {
        v.wf()
    }
}

/// The shared, concurrently accessed registry of tracked paths.
pub struct SharedIndex {
    lock: RwLock<LiveIndex, WfIndex>,
}

impl SharedIndex {
    pub fn new() -> SharedIndex {
        SharedIndex { lock: RwLock::new(LiveIndex::new(), Ghost(WfIndex)) }
    }

    /// Insert-if-absent under the write lock.
    pub fn add(&self, p: String) {
        let (mut idx, handle) = self.lock.acquire_write();
        idx.add(p);
        handle.release_write(idx);
    }

    /// Adds a batch of paths under the write lock.
    pub fn add_all(&self, ps: &Vec<String>) {
        let (mut idx, handle) = self.lock.acquire_write();
        idx.add_all(ps);
        handle.release_write(idx);
    }

    /// Drops a directory's subtree under the write lock.
    pub fn remove_prefix(&self, d: &str) {
        let (mut idx, handle) = self.lock.acquire_write();
        idx.remove_prefix(d);
        handle.release_write(idx);
    }

    /// Applies one filesystem notification under the write lock, held only
    /// for the bounded in-memory mutation.
    pub fn apply_event(&self, e: &IndexEvent) {
        let (mut idx, handle) = self.lock.acquire_write();
        idx.apply_event(e);
        handle.release_write(idx);
    }

    /// A point-in-time copy under a read acquisition; other readers are
    /// never blocked, and the copy is duplicate-free.
    pub fn snapshot(&self) -> (r: Vec<String>)
        ensures
            unique_seq(r.deep_view()),
    {
        let handle = self.lock.acquire_read();
        let snap = handle.borrow().snapshot();
        handle.release_read();
        snap
    }

    /// The source listing served externally: never includes a
    /// thumbnail-marked path, whatever the registry holds.
    pub fn snapshot_non_thumbnail_paths(&self, root: &str) -> (r: Vec<String>)
        ensures
            forall|i: int|
                0 <= i < r.deep_view().len() ==> !path_has_thumbnail_marker(r.deep_view()[i]),
    {
        let handle = self.lock.acquire_read();
        let ghost held = handle.view()@;
        let rel = handle.borrow().snapshot_non_thumbnail_paths(root);
        handle.release_read();
        proof {
            lemma_sources_no_thumbnail(held, root@);
        }
        rel
    }

    /// Membership test under a read acquisition.
    pub fn contains_path(&self, p: &str) -> bool {
        let handle = self.lock.acquire_read();
        let r = handle.borrow().contains_path(p);
        handle.release_read();
        r
    }

    /// Does any tracked path end in `name`?
    pub fn path_exists(&self, name: &str) -> bool {
        let handle = self.lock.acquire_read();
        let r = handle.borrow().path_exists(name);
        handle.release_read();
        r
    }

    /// The number of tracked paths at this instant.
    pub fn len(&self) -> usize {
        let handle = self.lock.acquire_read();
        let r = handle.borrow().len();
        handle.release_read();
        r
    }
}

} // verus!
