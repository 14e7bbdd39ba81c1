//! The in-memory texture cache, and the request/completion decisions on it.
//!
//! The cache maps a source path to a ready-to-display handle and lives for
//! the whole process: entries are only ever read or inserted, never removed.
//! Its mathematical content is a finite map from path bytes to handles; the
//! handle type is left generic, since the display layer owns the concrete
//! texture objects. Callers that share one cache across workers wrap it in
//! a lock; both operations are short and do no I/O.

use vstd::pervasive::VecAdditionalExecFns;
use vstd::prelude::*;

verus! {

/// Whether two byte strings are equal.
fn bytes_eq(a: &[u8], b: &[u8]) -> (r: bool)
    ensures
        r <==> a@ == b@,
{
    if a.len() != b.len() {
        proof {
            if a@ == b@ {
                assert(a@.len() == b@.len());
            }
        }
        return false;
    }
    let mut i: usize = 0;
    while i < a.len()
        invariant
            i <= a@.len(),
            a@.len() == b@.len(),
            forall|j: int| 0 <= j < i ==> a@[j] == b@[j],
        decreases a@.len() - i,
    {
        if a[i] != b[i] {
            return false;
        }
        i = i + 1;
    }
    proof {
        assert(a@ =~= b@);
    }
    true
}

/// Process-lifetime mapping from a source path to a display handle.
pub struct TextureCache<T> {
    entries: Vec<(Vec<u8>, T)>,
}

impl<T> TextureCache<T> {
    /// The map a prefix of the entry list denotes; a later entry for a key
    /// shadows an earlier one.
    pub closed spec fn map_of(s: Seq<(Vec<u8>, T)>) -> Map<Seq<u8>, T>
        decreases s.len(),
    {
        if s.len() == 0 {
            Map::empty()
        } else {
            Self::map_of(s.drop_last()).insert(s.last().0@, s.last().1)
        }
    }

    /// The cache's mathematical content.
    pub closed spec fn as_map(self) -> Map<Seq<u8>, T> {
        Self::map_of(self.entries@)
    }

    /// No path occurs twice in the entry list.
    pub closed spec fn wf(self) -> bool {
        forall|i: int, j: int|
            0 <= i < j < self.entries@.len() ==> self.entries@[i].0@ != self.entries@[j].0@
    }

    /// A key is in the map exactly when some entry carries it.
    proof fn lemma_map_of_contains(s: Seq<(Vec<u8>, T)>, k: Seq<u8>)
        ensures
            Self::map_of(s).contains_key(k) <==> (exists|i: int|
                0 <= i < s.len() && s[i].0@ == k),
        decreases s.len(),
    {
        if s.len() > 0 {
            Self::lemma_map_of_contains(s.drop_last(), k);
            if s.last().0@ == k {
                assert(s[s.len() - 1].0@ == k);
            } else {
                if Self::map_of(s).contains_key(k) {
                    let i = choose|i: int|
                        0 <= i < s.drop_last().len() && s.drop_last()[i].0@ == k;
                    assert(s[i].0@ == k);
                }
                if exists|i: int| 0 <= i < s.len() && s[i].0@ == k {
                    let i = choose|i: int| 0 <= i < s.len() && s[i].0@ == k;
                    assert(i < s.len() - 1);
                    assert(s.drop_last()[i].0@ == k);
                }
            }
        }
    }

    /// An entry not shadowed by a later one gives the key's value.
    proof fn lemma_map_of_value(s: Seq<(Vec<u8>, T)>, i: int)
        requires
            0 <= i < s.len(),
            forall|j: int| i < j < s.len() ==> s[j].0@ != s[i].0@,
        ensures
            Self::map_of(s).contains_key(s[i].0@),
            Self::map_of(s)[s[i].0@] == s[i].1,
        decreases s.len(),
    {
        if i == s.len() - 1 {
            assert(s.last() == s[i]);
        } else {
            assert(s.last().0@ != s[i].0@);
            assert(s.drop_last()[i] == s[i]);
            Self::lemma_map_of_value(s.drop_last(), i);
        }
    }

    /// Replacing the entry that carries a key rewrites that key's value.
    proof fn lemma_map_of_update(s: Seq<(Vec<u8>, T)>, i: int, e: (Vec<u8>, T))
        requires
            0 <= i < s.len(),
            e.0@ == s[i].0@,
            forall|j: int| i < j < s.len() ==> s[j].0@ != s[i].0@,
        ensures
            Self::map_of(s.update(i, e)) == Self::map_of(s).insert(e.0@, e.1),
        decreases s.len(),
    {
        let t = s.update(i, e);
        if i == s.len() - 1 {
            assert(t.drop_last() =~= s.drop_last());
            assert(t.last() == e);
            assert(Self::map_of(t) =~= Self::map_of(s).insert(e.0@, e.1));
        } else {
            assert(t.drop_last() =~= s.drop_last().update(i, e));
            assert(t.last() == s.last());
            assert(s.drop_last()[i] == s[i]);
            Self::lemma_map_of_update(s.drop_last(), i, e);
            assert(s.last().0@ != e.0@);
            assert(Self::map_of(t) =~= Self::map_of(s).insert(e.0@, e.1));
        }
    }

    /// Appending an entry inserts its key.
    proof fn lemma_map_of_push(s: Seq<(Vec<u8>, T)>, e: (Vec<u8>, T))
        ensures
            Self::map_of(s.push(e)) == Self::map_of(s).insert(e.0@, e.1),
    {
        assert(s.push(e).drop_last() =~= s);
        assert(s.push(e).last() == e);
    }

    /// An empty cache.
    pub fn new() -> (r: Self)
        ensures
            r.wf(),
            r.as_map() == Map::<Seq<u8>, T>::empty(),
    {
        TextureCache { entries: Vec::new() }
    }

    /// Look a path up. A hit hands back the cached handle; a miss is the
    /// caller's cue to dispatch a worker job, and comes exactly when the
    /// path has never been completed into the cache.
    pub fn get(&self, path: &[u8]) -> (r: Option<&T>)
        requires
            self.wf(),
        ensures
            match r {
                Some(v) => self.as_map().contains_key(path@) && *v == self.as_map()[path@],
                None => !self.as_map().contains_key(path@),
            },
    {
        let mut i: usize = 0;
        while i < self.entries.len()
            invariant
                self.wf(),
                i <= self.entries@.len(),
                forall|j: int| 0 <= j < i ==> self.entries@[j].0@ != path@,
            decreases self.entries@.len() - i,
        {
            let pair = &self.entries[i];
            if bytes_eq(pair.0.as_slice(), path) {
                proof {
                    Self::lemma_map_of_value(self.entries@, i as int);
                }
                return Some(&pair.1);
            }
            i = i + 1;
        }
        proof {
            Self::lemma_map_of_contains(self.entries@, path@);
        }
        None
    }

    /// Insert a handle for a path, replacing any earlier handle for it.
    pub fn insert(&mut self, path: Vec<u8>, handle: T)
        requires
            old(self).wf(),
        ensures
            final(self).wf(),
            final(self).as_map() == old(self).as_map().insert(path@, handle),
    {
        let ghost s = self.entries@;
        let mut i: usize = 0;
        while i < self.entries.len()
            invariant
                self.wf(),
                s == self.entries@,
                s == old(self).entries@,
                i <= self.entries@.len(),
                forall|j: int| 0 <= j < i ==> self.entries@[j].0@ != path@,
            decreases self.entries@.len() - i,
        {
            if bytes_eq(self.entries[i].0.as_slice(), path.as_slice()) {
                let ghost e: (Vec<u8>, T) = (path, handle);
                proof {
                    Self::lemma_map_of_update(s, i as int, e);
                }
                self.entries.set(i, (path, handle));
                proof {
                    assert(self.entries@ == s.update(i as int, e));
                    assert(self.as_map() == Self::map_of(s).insert(e.0@, e.1));
                    assert forall|a: int, b: int|
                        0 <= a < b < self.entries@.len() implies self.entries@[a].0@
                        != self.entries@[b].0@ by {
                        assert(self.entries@[a].0@ == s[a].0@);
                        assert(self.entries@[b].0@ == s[b].0@);
                    }
                }
                return ;
            }
            i = i + 1;
        }
        proof {
            Self::lemma_map_of_push(s, (path, handle));
        }
        self.entries.push((path, handle));
        proof {
            assert forall|a: int, b: int|
                0 <= a < b < self.entries@.len() implies self.entries@[a].0@
                != self.entries@[b].0@ by {
                if b < s.len() {
                    assert(self.entries@[a] == s[a]);
                    assert(self.entries@[b] == s[b]);
                } else {
                    assert(self.entries@[a] == s[a]);
                    assert(self.entries@[b].0@ == path@);
                }
            }
        }
    }

    /// Finish a request on the UI side: when the requesting cell is still
    /// bound to this request, the decoded handle is cached under its path
    /// and the cell is updated; a completion whose cell has since gone away
    /// changes nothing and is no error.
    pub fn complete(&mut self, path: Vec<u8>, handle: T, cell_bound: bool) -> (updated: bool)
        requires
            old(self).wf(),
        ensures
            final(self).wf(),
            updated == cell_bound,
            cell_bound ==> final(self).as_map() == old(self).as_map().insert(path@, handle),
            !cell_bound ==> *final(self) == *old(self),
    {
        if cell_bound {
            self.insert(path, handle);
            true
        } else {
            false
        }
    }
}

/// Law: two completions racing to cache handles for one path leave the
/// cache in a consistent single-entry state for that path, whichever order
/// the inserts land in — the path maps to the later handle, every other
/// path keeps its entry, and no second entry for the path exists.
pub proof fn lemma_racing_inserts<T>(m: Map<Seq<u8>, T>, k: Seq<u8>, v1: T, v2: T)
    ensures
        m.insert(k, v1).insert(k, v2) == m.insert(k, v2),
        m.insert(k, v1).insert(k, v2).dom() == m.dom().insert(k),
        m.insert(k, v1).insert(k, v2)[k] == v2,
{
    assert(m.insert(k, v1).insert(k, v2) =~= m.insert(k, v2));
    assert(m.insert(k, v1).insert(k, v2).dom() =~= m.dom().insert(k));
}

/// Law: once a completion has cached a path, a repeated request for it is a
/// hit, so no second worker job is dispatched.
pub proof fn lemma_cached_request_short_circuits<T>(m: Map<Seq<u8>, T>, k: Seq<u8>, v: T)
    ensures
        m.insert(k, v).contains_key(k),
        m.insert(k, v)[k] == v,
{
}

} // verus!
