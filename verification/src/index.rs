//! The live media index: a duplicate-free registry of tracked paths, with
//! the reconciliation state machine that keeps it consistent under
//! filesystem change events.

use vstd::prelude::*;
use vstd::seq_lib::group_filter_ensures;

use crate::classify::path_has_thumbnail_marker;
use crate::classify::path_is_thumbnail;
use crate::strutil::{ends_with, lemma_contains_in_skip, seq_contains_at, starts_with, str_eq};

verus! {

/// No two entries are equal.
pub open spec fn unique_seq(s: Seq<Seq<char>>) -> bool {
    forall|i: int, j: int| 0 <= i < j < s.len() ==> s[i] != s[j]
}

/// Insert-if-absent: the registry after adding one path.
pub open spec fn add_spec(s: Seq<Seq<char>>, p: Seq<char>) -> Seq<Seq<char>> {
    if s.contains(p) {
        s
    } else {
        s.push(p)
    }
}

/// The registry after adding a batch of paths in order.
pub open spec fn add_all_spec(s: Seq<Seq<char>>, ps: Seq<Seq<char>>) -> Seq<Seq<char>>
    decreases ps.len(),
{
    if ps.len() == 0 {
        s
    } else {
        add_all_spec(add_spec(s, ps[0]), ps.skip(1))
    }
}

/// `p` is the directory `d` itself or nested under it.
pub open spec fn under_dir(p: Seq<char>, d: Seq<char>) -> bool {
    p == d || d.push('/').is_prefix_of(p)
}

/// The predicate kept by a directory removal: not under `d`.
pub open spec fn not_under(d: Seq<char>) -> spec_fn(Seq<char>) -> bool {
    |p: Seq<char>| !under_dir(p, d)
}

/// The registry after a directory removal: every path equal to `d` or nested
/// under it is dropped; the others keep their order.
pub open spec fn remove_under_spec(s: Seq<Seq<char>>, d: Seq<char>) -> Seq<Seq<char>> {
    s.filter(not_under(d))
}

/// The registry after a batch of directory removals in order.
pub open spec fn remove_all_under_spec(s: Seq<Seq<char>>, ds: Seq<Seq<char>>) -> Seq<Seq<char>>
    decreases ds.len(),
{
    if ds.len() == 0 {
        s
    } else {
        remove_all_under_spec(remove_under_spec(s, ds[0]), ds.skip(1))
    }
}

/// A tracked path made relative to the resource root.
pub open spec fn strip_root(p: Seq<char>, root: Seq<char>) -> Seq<char> {
    if p == root {
        Seq::<char>::empty()
    } else if root.push('/').is_prefix_of(p) {
        p.skip(root.len() as int + 1)
    } else {
        p
    }
}

/// The predicate kept by the source listing: not thumbnail-derived.
pub open spec fn not_thumbnail() -> spec_fn(Seq<char>) -> bool {
    |p: Seq<char>| !path_has_thumbnail_marker(p)
}

/// Relativisation of one path, as a function of the root.
pub open spec fn strip_root_fn(root: Seq<char>) -> spec_fn(Seq<char>) -> Seq<char> {
    |p: Seq<char>| strip_root(p, root)
}

/// The externally served source listing: thumbnail-derived paths excluded,
/// the rest made relative to the root.
pub open spec fn rel_sources_spec(s: Seq<Seq<char>>, root: Seq<char>) -> Seq<Seq<char>> {
    s.filter(not_thumbnail()).map_values(strip_root_fn(root))
}

/// A filesystem change notification as the index consumes it. Scanning a
/// newly created folder is I/O and happens outside the library: a folder
/// creation event carries the files that the scan of the new folder found.
pub enum IndexEvent {
    /// One or more files were created.
    CreateFile { paths: Vec<String> },
    /// A folder was created; `found` holds the files a scan of it yielded.
    CreateFolder { found: Vec<String> },
    /// Paths were renamed away (file or folder): they and anything nested
    /// under them leave the index.
    RenameFrom { paths: Vec<String> },
    /// Paths arrived by rename: treated as new files.
    RenameTo { paths: Vec<String> },
    /// Any other notification kind is ignored by design.
    Other,
}

/// The registry after one event is applied.
pub open spec fn apply_event_spec(s: Seq<Seq<char>>, e: IndexEvent) -> Seq<Seq<char>> {
    match e {
        IndexEvent::CreateFile { paths } => add_all_spec(s, paths.deep_view()),
        IndexEvent::CreateFolder { found } => add_all_spec(s, found.deep_view()),
        IndexEvent::RenameFrom { paths } => remove_all_under_spec(s, paths.deep_view()),
        IndexEvent::RenameTo { paths } => add_all_spec(s, paths.deep_view()),
        IndexEvent::Other => s,
    }
}

/// The shared registry of tracked paths. The caller holds it behind a
/// reader/writer lock; every operation here is a plain in-memory mutation or
/// copy, so the lock is never held across probing or encoding.
pub struct LiveIndex {
    paths: Vec<String>,
}

impl View for LiveIndex {
    type V = Seq<Seq<char>>;

    closed spec fn view(&self) -> Seq<Seq<char>> {
        self.paths.deep_view()
    }
}

impl LiveIndex {
    /// The index invariant: no duplicate paths.
    pub open spec fn wf(&self) -> bool {
        unique_seq(self@)
    }

    pub fn new() -> (r: LiveIndex)
        ensures
            r@ == Seq::<Seq<char>>::empty(),
            r.wf(),
    {
        let r = LiveIndex { paths: Vec::new() };
        proof {
            assert(r@ =~= Seq::<Seq<char>>::empty());
        }
        r
    }

    pub fn len(&self) -> (n: usize)
        ensures
            n == self@.len(),
    {
        self.paths.len()
    }

    /// Membership test against the current registry.
    pub fn contains_path(&self, p: &str) -> (r: bool)
        ensures
            r == self@.contains(p@),
    {
        let n = self.paths.len();
        let mut i: usize = 0;
        while i < n
            invariant
                n == self@.len(),
                n == self.paths@.len(),
                i <= n,
                forall|j: int| 0 <= j < i ==> self@[j] != p@,
            decreases n - i,
        {
            proof {
                assert(self@[i as int] == self.paths@[i as int]@);
            }
            if str_eq(self.paths[i].as_str(), p) {
                return true;
            }
            i = i + 1;
        }
        proof {
            if self@.contains(p@) {
                let j = choose|j: int| 0 <= j < self@.len() && self@[j] == p@;
                assert(false);
            }
        }
        false
    }

    /// Insert-if-absent. Repeated adds of one path change nothing, and no
    /// duplicate ever enters the registry.
    pub fn add(&mut self, p: String)
        ensures
            final(self)@ == add_spec(old(self)@, p@),
            old(self).wf() ==> final(self).wf(),
    {
        if !self.contains_path(p.as_str()) {
            let ghost pre = self@;
            self.paths.push(p);
            proof {
                assert(self@ =~= pre.push(p@));
                if unique_seq(pre) {
                    assert forall|i: int, j: int| 0 <= i < j < self@.len() implies self@[i]
                        != self@[j] by {
                        if j == pre.len() {
                            assert(!pre.contains(p@));
                            assert(self@[i] == pre[i]);
                        }
                    }
                }
            }
        }
    }

    /// Adds a batch of paths in order, each insert-if-absent.
    pub fn add_all(&mut self, ps: &Vec<String>)
        ensures
            final(self)@ == add_all_spec(old(self)@, ps.deep_view()),
            old(self).wf() ==> final(self).wf(),
    {
        let ghost orig = self@;
        let ghost full = ps.deep_view();
        let n = ps.len();
        let mut i: usize = 0;
        proof {
            assert(full.skip(0) =~= full);
        }
        while i < n
            invariant
                n == full.len(),
                n == ps@.len(),
                full == ps.deep_view(),
                i <= n,
                add_all_spec(orig, full) == add_all_spec(self@, full.skip(i as int)),
                unique_seq(orig) ==> unique_seq(self@),
            decreases n - i,
        {
            let ghost pre = self@;
            proof {
                assert(full.skip(i as int)[0] == full[i as int]);
                assert(full.skip(i as int).skip(1) =~= full.skip(i + 1));
                assert(full[i as int] == ps@[i as int]@);
            }
            self.add(ps[i].clone());
            proof {
                assert(add_all_spec(pre, full.skip(i as int)) == add_all_spec(
                    self@,
                    full.skip(i + 1),
                ));
            }
            i = i + 1;
        }
        proof {
            assert(full.skip(n as int) =~= Seq::<Seq<char>>::empty());
        }
    }

    /// Directory removal: drops every tracked path equal to `d` or nested
    /// under it, keeping the order of the rest.
    pub fn remove_prefix(&mut self, d: &str)
        ensures
            final(self)@ == remove_under_spec(old(self)@, d@),
            old(self).wf() ==> final(self).wf(),
    {
        broadcast use group_filter_ensures;
        broadcast use Seq::<_>::lemma_filter_push;

        let ghost orig = self@;
        let ghost pred = not_under(d@);
        let mut rooted = String::from_str(d);
        rooted.append("/");
        proof {
            reveal_strlit("/");
            assert(rooted@ =~= d@.push('/'));
        }
        let n = self.paths.len();
        let mut kept: Vec<String> = Vec::new();
        let mut i: usize = 0;
        proof {
            assert(kept.deep_view() =~= orig.subrange(0, 0).filter(pred));
            assert(orig.subrange(0, 0) =~= Seq::<Seq<char>>::empty());
        }
        while i < n
            invariant
                n == orig.len(),
                n == self.paths@.len(),
                orig == self@,
                pred == not_under(d@),
                rooted@ == d@.push('/'),
                i <= n,
                kept.deep_view() == orig.subrange(0, i as int).filter(pred),
            decreases n - i,
        {
            let p = &self.paths[i];
            proof {
                assert(orig[i as int] == self.paths@[i as int]@);
            }
            let hit = str_eq(p.as_str(), d) || starts_with(p.as_str(), rooted.as_str());
            let ghost pre_kept = kept.deep_view();
            if !hit {
                kept.push(p.clone());
                proof {
                    assert(kept.deep_view() =~= pre_kept.push(orig[i as int]));
                }
            }
            proof {
                let prefix = orig.subrange(0, i as int);
                assert(orig.subrange(0, i + 1) =~= prefix.push(orig[i as int]));
                prefix.lemma_filter_push(orig[i as int], pred);
            }
            i = i + 1;
        }
        self.paths = kept;
        proof {
            assert(orig.subrange(0, n as int) =~= orig);
            if unique_seq(orig) {
                lemma_filter_keeps_unique(orig, pred);
            }
        }
    }

    /// Applies a batch of directory removals in order.
    pub fn remove_prefixes(&mut self, ds: &Vec<String>)
        ensures
            final(self)@ == remove_all_under_spec(old(self)@, ds.deep_view()),
            old(self).wf() ==> final(self).wf(),
    {
        let ghost orig = self@;
        let ghost full = ds.deep_view();
        let n = ds.len();
        let mut i: usize = 0;
        proof {
            assert(full.skip(0) =~= full);
        }
        while i < n
            invariant
                n == full.len(),
                n == ds@.len(),
                full == ds.deep_view(),
                i <= n,
                remove_all_under_spec(orig, full) == remove_all_under_spec(
                    self@,
                    full.skip(i as int),
                ),
                unique_seq(orig) ==> unique_seq(self@),
            decreases n - i,
        {
            let ghost pre = self@;
            proof {
                assert(full.skip(i as int)[0] == full[i as int]);
                assert(full.skip(i as int).skip(1) =~= full.skip(i + 1));
                assert(full[i as int] == ds@[i as int]@);
            }
            self.remove_prefix(ds[i].as_str());
            proof {
                assert(remove_all_under_spec(pre, full.skip(i as int)) == remove_all_under_spec(
                    self@,
                    full.skip(i + 1),
                ));
            }
            i = i + 1;
        }
        proof {
            assert(full.skip(n as int) =~= Seq::<Seq<char>>::empty());
        }
    }

    /// The reconciliation entry point: one filesystem notification, one
    /// registry transition. Create and rename-to events add, rename-from
    /// events remove whole subtrees, everything else is ignored by design.
    pub fn apply_event(&mut self, e: &IndexEvent)
        ensures
            final(self)@ == apply_event_spec(old(self)@, *e),
            old(self).wf() ==> final(self).wf(),
    {
        match e {
            IndexEvent::CreateFile { paths } => self.add_all(paths),
            IndexEvent::CreateFolder { found } => self.add_all(found),
            IndexEvent::RenameFrom { paths } => self.remove_prefixes(paths),
            IndexEvent::RenameTo { paths } => self.add_all(paths),
            IndexEvent::Other => {},
        }
    }

    /// A point-in-time, duplicate-free copy of the registry.
    pub fn snapshot(&self) -> (r: Vec<String>)
        ensures
            r.deep_view() == self@,
    {
        let n = self.paths.len();
        let mut out: Vec<String> = Vec::new();
        let mut i: usize = 0;
        while i < n
            invariant
                n == self.paths@.len(),
                i <= n,
                out.deep_view() == self@.subrange(0, i as int),
            decreases n - i,
        {
            let ghost pre = out.deep_view();
            proof {
                assert(self@[i as int] == self.paths@[i as int]@);
            }
            out.push(self.paths[i].clone());
            proof {
                assert(out.deep_view() =~= pre.push(self@[i as int]));
                assert(out.deep_view() =~= self@.subrange(0, i + 1));
            }
            i = i + 1;
        }
        proof {
            assert(self@.subrange(0, n as int) =~= self@);
        }
        out
    }

    /// The source listing served externally: every tracked path that does
    /// not carry the thumbnail marker, made relative to `root`.
    pub fn snapshot_non_thumbnail_paths(&self, root: &str) -> (r: Vec<String>)
        ensures
            r.deep_view() == rel_sources_spec(self@, root@),
    {
        broadcast use group_filter_ensures;
        broadcast use Seq::<_>::lemma_filter_push;

        let ghost whole = self@;
        let ghost pred = not_thumbnail();
        let ghost f = strip_root_fn(root@);
        let n = self.paths.len();
        let mut out: Vec<String> = Vec::new();
        let mut i: usize = 0;
        proof {
            assert(whole.subrange(0, 0) =~= Seq::<Seq<char>>::empty());
            assert(out.deep_view() =~= whole.subrange(0, 0).filter(pred).map_values(f));
        }
        while i < n
            invariant
                n == whole.len(),
                n == self.paths@.len(),
                whole == self@,
                pred == not_thumbnail(),
                f == strip_root_fn(root@),
                i <= n,
                out.deep_view() == whole.subrange(0, i as int).filter(pred).map_values(f),
            decreases n - i,
        {
            let p = &self.paths[i];
            proof {
                assert(whole[i as int] == self.paths@[i as int]@);
            }
            let ghost pre = out.deep_view();
            if !path_is_thumbnail(p.as_str()) {
                let rel = strip_root_exec(p.as_str(), root);
                out.push(rel);
                proof {
                    assert(out.deep_view() =~= pre.push(f(whole[i as int])));
                }
            }
            proof {
                let prefixq = whole.subrange(0, i as int);
                assert(whole.subrange(0, i + 1) =~= prefixq.push(whole[i as int]));
                prefixq.lemma_filter_push(whole[i as int], pred);
                let base = prefixq.filter(pred);
                if pred(whole[i as int]) {
                    assert(base.push(whole[i as int]).map_values(f) =~= base.map_values(f).push(
                        f(whole[i as int]),
                    ));
                }
            }
            i = i + 1;
        }
        proof {
            assert(whole.subrange(0, n as int) =~= whole);
        }
        out
    }

    /// Does any tracked path end in `name`? Serves the liveness query for
    /// relative names against the current snapshot.
    pub fn path_exists(&self, name: &str) -> (r: bool)
        ensures
            r == exists|i: int| 0 <= i < self@.len() && name@.is_suffix_of(self@[i]),
    {
        let n = self.paths.len();
        let mut i: usize = 0;
        while i < n
            invariant
                n == self@.len(),
                n == self.paths@.len(),
                i <= n,
                forall|j: int| 0 <= j < i ==> !name@.is_suffix_of(self@[j]),
            decreases n - i,
        {
            proof {
                assert(self@[i as int] == self.paths@[i as int]@);
            }
            if ends_with(self.paths[i].as_str(), name) {
                return true;
            }
            i = i + 1;
        }
        false
    }
}

/// Removing a subtree keeps the registry duplicate-free.
pub proof fn lemma_filter_keeps_unique(s: Seq<Seq<char>>, pred: spec_fn(Seq<char>) -> bool)
    requires
        unique_seq(s),
    ensures
        unique_seq(s.filter(pred)),
    decreases s.len(),
{
    reveal(Seq::filter);
    if s.len() > 0 {
        let rest = s.drop_last();
        assert(unique_seq(rest));
        lemma_filter_keeps_unique(rest, pred);
        if pred(s.last()) {
            let fr = rest.filter(pred);
            if fr.contains(s.last()) {
                rest.lemma_filter_contains_rev(pred, s.last());
                let j = choose|j: int| 0 <= j < rest.len() && rest[j] == s.last();
                assert(s[j] == s[s.len() - 1]);
                assert(false);
            }
            assert forall|i: int, j: int| 0 <= i < j < fr.push(s.last()).len() implies fr.push(
                s.last(),
            )[i] != fr.push(s.last())[j] by {
                if j == fr.len() {
                    assert(fr.contains(fr[i]));
                }
            }
        }
    }
}

/// Making a path relative to the root.
pub fn strip_root_exec(p: &str, root: &str) -> (r: String)
    ensures
        r@ == strip_root(p@, root@),
{
    if str_eq(p, root) {
        let r = String::new();
        proof {
            assert(r@ =~= Seq::<char>::empty());
        }
        r
    } else {
        let mut rooted = String::from_str(root);
        rooted.append("/");
        proof {
            reveal_strlit("/");
            assert(rooted@ =~= root@.push('/'));
        }
        if starts_with(p, rooted.as_str()) {
            let n = p.unicode_len();
            let k = rooted.as_str().unicode_len();
            String::from_str(p.substring_char(k, n))
        } else {
            String::from_str(p)
        }
    }
}

/// Law: adding a path twice is the same as adding it once — repeated adds
/// can never introduce a duplicate.
pub proof fn lemma_add_idempotent(s: Seq<Seq<char>>, p: Seq<char>)
    ensures
        add_spec(add_spec(s, p), p) == add_spec(s, p),
{
    if !s.contains(p) {
        assert(s.push(p)[s.len() as int] == p);
        assert(s.push(p).contains(p));
    }
}

/// Law: after a directory removal, no remaining tracked path is the removed
/// directory or nested under it.
pub proof fn lemma_remove_prefix_complete(s: Seq<Seq<char>>, d: Seq<char>)
    ensures
        forall|i: int|
            0 <= i < remove_under_spec(s, d).len() ==> !under_dir(remove_under_spec(s, d)[i], d),
{
    assert forall|i: int| 0 <= i < remove_under_spec(s, d).len() implies !under_dir(
        remove_under_spec(s, d)[i],
        d,
    ) by {
        s.lemma_filter_pred(not_under(d), i);
    }
}

/// Law: the served source listing never includes a path that carries the
/// thumbnail marker.
pub proof fn lemma_sources_no_thumbnail(s: Seq<Seq<char>>, root: Seq<char>)
    ensures
        forall|i: int|
            0 <= i < rel_sources_spec(s, root).len() ==> !path_has_thumbnail_marker(
                rel_sources_spec(s, root)[i],
            ),
{
    reveal_strlit("thumbnail");
    let kept = s.filter(not_thumbnail());
    assert forall|i: int| 0 <= i < rel_sources_spec(s, root).len() implies !path_has_thumbnail_marker(
        rel_sources_spec(s, root)[i],
    ) by {
        s.lemma_filter_pred(not_thumbnail(), i);
        let p = kept[i];
        let r = rel_sources_spec(s, root)[i];
        assert(r == strip_root(p, root));
        if path_has_thumbnail_marker(r) {
            if p == root {
                let j = choose|j: int| seq_contains_at(r, "thumbnail"@, j);
                assert(false);
            } else if root.push('/').is_prefix_of(p) {
                lemma_contains_in_skip(p, "thumbnail"@, root.len() as int + 1);
                assert(false);
            } else {
                assert(false);
            }
        }
    }
}

} // verus!
