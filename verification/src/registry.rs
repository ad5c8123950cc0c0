//! The session registry.
//!
//! A process-wide map from session identifier to OS process id.  A session
//! starts under a locally generated placeholder id and is rekeyed to the
//! backend-announced id once that is observed; at most one process is
//! registered per identifier at any time.  The registry itself is a plain
//! sequential structure: the shell around the library guards one instance
//! with a single lock and holds it only for the duration of one operation.

use vstd::prelude::*;

verus! {

/// The map a list of entries denotes, later entries winning.
pub open spec fn map_of(s: Seq<(String, u32)>) -> Map<Seq<char>, u32>
    decreases s.len(),
{
    if s.len() == 0 {
        Map::empty()
    } else {
        map_of(s.drop_last()).insert(s.last().0@, s.last().1)
    }
}

/// Pairwise distinct keys.
pub open spec fn unique_keys(s: Seq<(String, u32)>) -> bool {
    forall|i: int, j: int|
        0 <= i < j < s.len() ==> (#[trigger] s[i]).0@ != (#[trigger] s[j]).0@
}

/// What the denoted map holds, entry by entry.
proof fn lemma_map_of_props(s: Seq<(String, u32)>)
    ensures
        forall|i: int|
            0 <= i < s.len() && (forall|j: int| i < j < s.len() ==> (#[trigger] s[j]).0@ != s[i].0@)
                ==> map_of(s).contains_key((#[trigger] s[i]).0@) && map_of(s)[s[i].0@] == s[i].1,
        forall|k: Seq<char>| map_of(s).contains_key(k)
            ==> exists|i: int| 0 <= i < s.len() && (#[trigger] s[i]).0@ == k,
    decreases s.len(),
{
    if s.len() > 0 {
        lemma_map_of_props(s.drop_last());
        assert forall|i: int|
            0 <= i < s.len() && (forall|j: int| i < j < s.len() ==> (#[trigger] s[j]).0@
                != s[i].0@) implies map_of(s).contains_key((#[trigger] s[i]).0@) && map_of(
            s)[s[i].0@] == s[i].1 by {
            if i < s.len() - 1 {
                assert(s.drop_last()[i] == s[i]);
                assert(forall|j: int| i < j < s.len() - 1 ==> (#[trigger] s.drop_last()[j]).0@
                    != s.drop_last()[i].0@);
                assert(s[s.len() - 1].0@ != s[i].0@);
            }
        }
        assert forall|k: Seq<char>| map_of(s).contains_key(k) implies exists|i: int|
            0 <= i < s.len() && (#[trigger] s[i]).0@ == k by {
            if k != s.last().0@ {
                assert(map_of(s.drop_last()).contains_key(k));
                let i = choose|i: int| 0 <= i < s.len() - 1 && (#[trigger] s.drop_last()[i]).0@
                    == k;
                assert(s[i].0@ == k);
            } else {
                assert(s[s.len() - 1].0@ == k);
            }
        }
    }
}

/// Removing an entry removes its key from the denoted map.
proof fn lemma_map_of_remove(s: Seq<(String, u32)>, i: int)
    requires
        unique_keys(s),
        0 <= i < s.len(),
    ensures
        map_of(s.remove(i)) == map_of(s).remove(s[i].0@),
    decreases s.len(),
{
    lemma_map_of_props(s);
    if i == s.len() - 1 {
        assert(s.remove(i) =~= s.drop_last());
        lemma_map_of_props(s.drop_last());
        assert forall|k: Seq<char>| map_of(s.drop_last()).contains_key(k) implies k
            != s[i].0@ by {
            let d = choose|d: int| 0 <= d < s.len() - 1 && (#[trigger] s.drop_last()[d]).0@ == k;
            assert(s[d].0@ == k);
        }
        assert(map_of(s.drop_last()) =~= map_of(s).remove(s[i].0@));
    } else {
        lemma_map_of_remove(s.drop_last(), i);
        assert(s.remove(i).drop_last() =~= s.drop_last().remove(i));
        assert(s.remove(i).last() == s.last());
        assert(map_of(s.remove(i)) == map_of(s.drop_last().remove(i)).insert(s.last().0@,
            s.last().1));
        assert(s.drop_last()[i] == s[i]);
        assert(s.last().0@ != s[i].0@);
        assert(map_of(s).remove(s[i].0@) =~= map_of(s.drop_last()).remove(s[i].0@).insert(
            s.last().0@, s.last().1));
    }
}

/// The session registry: a map from session id to process id.
pub struct SessionRegistry {
    entries: Vec<(String, u32)>,
}

impl View for SessionRegistry {
    type V = Map<Seq<char>, u32>;

    closed spec fn view(&self) -> Map<Seq<char>, u32> {
        map_of(self.entries@)
    }
}

impl SessionRegistry {
    /// Entry keys are pairwise distinct.
    pub closed spec fn wf(self) -> bool {
        unique_keys(self.entries@)
    }

    /// An empty registry.
    pub fn new() -> (r: SessionRegistry)
        ensures
            r.wf(),
            r@ == Map::<Seq<char>, u32>::empty(),
    {
        SessionRegistry { entries: Vec::new() }
    }

    /// The position of `id`, if registered.
    #[verifier::loop_isolation(false)]
    fn find(&self, id: &str) -> (r: Option<usize>)
        ensures
            (match r {
                Some(i) => i < self.entries@.len() && self.entries@[i as int].0@ == id@,
                None => forall|i: int|
                    0 <= i < self.entries@.len() ==> (#[trigger] self.entries@[i]).0@ != id@,
            }),
    {
        let mut i: usize = 0;
        while i < self.entries.len()
            invariant
                i <= self.entries@.len(),
                forall|d: int| 0 <= d < i ==> (#[trigger] self.entries@[d]).0@ != id@,
            decreases self.entries@.len() - i,
        {
            if crate::json::string_eq_str(&self.entries[i].0, id) {
                return Some(i);
            }
            i = i + 1;
        }
        None
    }

    /// The process registered under `id`, if any.
    pub fn lookup(&self, id: &str) -> (r: Option<u32>)
        requires
            self.wf(),
        ensures
            (match r {
                Some(pid) => self@.contains_key(id@) && self@[id@] == pid,
                None => !self@.contains_key(id@),
            }),
    {
        proof {
            lemma_map_of_props(self.entries@);
        }
        match self.find(id) {
            Some(i) => Some(self.entries[i].1),
            None => {
                proof {
                    if self@.contains_key(id@) {
                        let d = choose|d: int|
                            0 <= d < self.entries@.len() && (#[trigger] self.entries@[d]).0@
                                == id@;
                    }
                }
                None
            }
        }
    }

    /// Register `pid` under `id`, replacing any process registered there.
    pub fn insert(&mut self, id: String, pid: u32)
        requires
            old(self).wf(),
        ensures
            final(self).wf(),
            final(self)@ == old(self)@.insert(id@, pid),
    {
        let _ = self.remove(id.as_str());
        let ghost pre = self.entries@;
        self.entries.push((id, pid));
        proof {
            assert(self.entries@.drop_last() =~= pre);
            assert(final(self)@ =~= old(self)@.insert(id@, pid));
            assert forall|i: int, j: int|
                0 <= i < j < self.entries@.len() implies (#[trigger] self.entries@[i]).0@
                != (#[trigger] self.entries@[j]).0@ by {
                if j == self.entries@.len() - 1 {
                    lemma_map_of_props(pre);
                    if pre[i].0@ == id@ {
                        assert(map_of(pre).contains_key(id@));
                    }
                }
            }
        }
    }

    /// Remove and return the process registered under `id`.  When `id` is
    /// not registered nothing changes.
    pub fn remove(&mut self, id: &str) -> (r: Option<u32>)
        requires
            old(self).wf(),
        ensures
            final(self).wf(),
            (match r {
                Some(pid) => old(self)@.contains_key(id@) && old(self)@[id@] == pid && final(
                    self)@ == old(self)@.remove(id@),
                None => !old(self)@.contains_key(id@) && *final(self) == *old(self),
            }),
    {
        proof {
            lemma_map_of_props(self.entries@);
        }
        match self.find(id) {
            Some(i) => {
                let ghost pre = self.entries@;
                let (_, pid) = self.entries.remove(i);
                proof {
                    lemma_map_of_remove(pre, i as int);
                    assert forall|a: int, b: int|
                        0 <= a < b < self.entries@.len() implies (
                    #[trigger] self.entries@[a]).0@ != (#[trigger] self.entries@[b]).0@ by {
                        if a < i as int {
                            assert(self.entries@[a] == pre[a]);
                        } else {
                            assert(self.entries@[a] == pre[a + 1]);
                        }
                        if b < i as int {
                            assert(self.entries@[b] == pre[b]);
                        } else {
                            assert(self.entries@[b] == pre[b + 1]);
                        }
                    }
                }
                Some(pid)
            }
            None => {
                proof {
                    if self@.contains_key(id@) {
                        let d = choose|d: int|
                            0 <= d < self.entries@.len() && (#[trigger] self.entries@[d]).0@
                                == id@;
                    }
                }
                None
            }
        }
    }

    /// Rekey the entry under `old_id` to `new_id`, keeping its process id:
    /// the reconciliation step from placeholder to backend-announced id.
    /// When `old_id` is absent (the process may already have ended and been
    /// reaped by a racing termination) the registry is left exactly as it
    /// was, and no error is raised.
    pub fn rename(&mut self, old_id: &str, new_id: String)
        requires
            old(self).wf(),
        ensures
            final(self).wf(),
            old(self)@.contains_key(old_id@) ==> final(self)@ == old(self)@.remove(
                old_id@).insert(new_id@, old(self)@[old_id@]),
            !old(self)@.contains_key(old_id@) ==> *final(self) == *old(self),
    {
        match self.remove(old_id) {
            Some(pid) => {
                self.insert(new_id, pid);
            }
            None => {}
        }
    }
}

} // verus!
