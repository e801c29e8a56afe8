//! Bounded map from transaction id to in-flight state.

use std::collections::hash_map::Entry;
use std::collections::HashMap;
use vstd::prelude::*;
use vstd::std_specs::iter::IteratorSpec;

verus! {

broadcast use vstd::std_specs::hash::group_hash_axioms;

/// Why an insertion was refused.
#[derive(Clone, Copy, Debug, PartialEq, Eq, Structural)]
pub enum QuotaError {
    /// The map already holds as many entries as its quota allows.
    QuotaReached,
}

/// Thin layer over a hash map that enforces a maximum number of entries.
pub struct QuotaMap<Right> {
    sessions: HashMap<u32, Right>,
    max_elements: u64,
}

impl<Right> View for QuotaMap<Right> {
    type V = Map<u32, Right>;

    closed spec fn view(&self) -> Map<u32, Right> {
        self.sessions@
    }
}

impl<Right> QuotaMap<Right> {
    /// The quota this map was created with.
    pub closed spec fn quota(&self) -> nat {
        self.max_elements as nat
    }

    /// Validity: the map never holds more entries than its quota.
    pub closed spec fn wf(&self) -> bool {
        self.sessions@.len() <= self.max_elements
    }

    /// A valid map holds no more entries than its quota, and finitely many.
    pub proof fn lemma_within_quota(&self)
        requires
            self.wf(),
        ensures
            self@.dom().finite(),
            self@.len() <= self.quota(),
    {
    }

    /// An empty map that will hold at most `max_elements` entries.
    pub fn new(max_elements: u64) -> (m: Self)
        ensures
            m.wf(),
            m@ == Map::<u32, Right>::empty(),
            m.quota() == max_elements,
    {
        Self { sessions: HashMap::new(), max_elements }
    }

    /// Adds or replaces the entry for `key`, unless the map is full.
    pub fn insert(&mut self, key: u32, value: Right) -> (r: Result<(), QuotaError>)
        requires
            old(self).wf(),
        ensures
            final(self).wf(),
            final(self).quota() == old(self).quota(),
            old(self)@.len() >= old(self).quota() ==> r == Err::<(), QuotaError>(
                QuotaError::QuotaReached,
            ) && final(self)@ == old(self)@,
            old(self)@.len() < old(self).quota() ==> r.is_ok() && final(self)@ == old(self)@.insert(
                key,
                value,
            ),
    {
        if self.sessions.len() as u64 >= self.max_elements {
            return Err(QuotaError::QuotaReached);
        }
        self.sessions.insert(key, value);
        Ok(())
    }

    /// Takes the entry for `key` out of the map, if there is one.
    pub fn remove(&mut self, key: &u32) -> (r: Option<Right>)
        requires
            old(self).wf(),
        ensures
            final(self).wf(),
            final(self).quota() == old(self).quota(),
            final(self)@ == old(self)@.remove(*key),
            r == if old(self)@.contains_key(*key) {
                Some(old(self)@[*key])
            } else {
                None
            },
    {
        let r = self.sessions.remove(key);
        proof {
            if old(self)@.contains_key(*key) {
                old(self)@.lemma_remove_key_len(*key);
            } else {
                assert(old(self)@.remove(*key) =~= old(self)@);
            }
        }
        r
    }

    /// The value stored for `key`, if there is one.
    pub fn get(&self, key: &u32) -> (r: Option<&Right>)
        ensures
            r == if self@.contains_key(*key) {
                Some(&self@[*key])
            } else {
                None
            },
    {
        self.sessions.get(key)
    }

    /// Mutable access to the value stored for `key`, if there is one. What the
    /// caller writes through the reference becomes the stored value.
    pub fn get_mut(&mut self, key: &u32) -> (r: Option<&mut Right>)
        requires
            old(self).wf(),
        ensures
            final(self).wf(),
            final(self).quota() == old(self).quota(),
            match r {
                Some(v) => {
                    &&& old(self)@.contains_key(*key)
                    &&& *v == old(self)@[*key]
                    &&& final(self)@ == old(self)@.insert(*key, *final(v))
                },
                None => !old(self)@.contains_key(*key) && final(self)@ == old(self)@,
            },
    {
        match self.sessions.entry(*key) {
            Entry::Occupied(e) => {
                let v = e.into_mut();
                proof {
                    assert(old(self)@.insert(*key, *final(v)).dom() =~= old(self)@.dom());
                }
                Some(v)
            },
            Entry::Vacant(_) => {
                proof {
                    assert(old(self)@.remove(*key) =~= old(self)@);
                }
                None
            },
        }
    }

    /// Keeps exactly the entries for which `f` answers `true`.
    pub fn retain<F: Fn(&u32, &Right) -> bool>(&mut self, f: F)
        requires
            old(self).wf(),
            forall|k: u32| #[trigger]
                old(self)@.contains_key(k) ==> call_requires(f, (&k, &old(self)@[k])),
        ensures
            final(self).wf(),
            final(self).quota() == old(self).quota(),
            final(self)@.submap_of(old(self)@),
            forall|k: u32| #[trigger]
                old(self)@.contains_key(k) ==> call_ensures(
                    f,
                    (&k, &old(self)@[k]),
                    final(self)@.contains_key(k),
                ),
    {
        let keys = self.keys();
        let n = keys.len();
        let mut i: usize = 0;
        while i < n
            invariant
                i <= n,
                n == keys@.len(),
                keys@.no_duplicates(),
                keys@.to_set() == old(self)@.dom(),
                self.wf(),
                self.max_elements == old(self).max_elements,
                self@.submap_of(old(self)@),
                forall|j: int| i <= j < n ==> self@.contains_key(#[trigger] keys@[j]),
                forall|j: int|
                    0 <= j < i ==> call_ensures(
                        f,
                        (&keys@[j], &old(self)@[keys@[j]]),
                        self@.contains_key(#[trigger] keys@[j]),
                    ),
                forall|k: u32| #[trigger]
                    old(self)@.contains_key(k) ==> call_requires(f, (&k, &old(self)@[k])),
            decreases n - i,
        {
            let k = keys[i];
            let ghost before = self@;
            proof {
                assert(keys@.to_set().contains(keys@[i as int]));
                assert(old(self)@.contains_key(k));
            }
            let keep = match self.sessions.get(&k) {
                Some(v) => f(&k, v),
                None => true,
            };
            if !keep {
                self.sessions.remove(&k);
                proof {
                    before.lemma_remove_key_len(k);
                }
            }
            i = i + 1;
        }
        proof {
            assert forall|k: u32| #[trigger] old(self)@.contains_key(k) implies call_ensures(
                f,
                (&k, &old(self)@[k]),
                self@.contains_key(k),
            ) by {
                assert(keys@.to_set().contains(k));
                let j = choose|j: int| 0 <= j < keys@.len() && keys@[j] == k;
                assert(keys@[j] == k);
            }
        }
    }

    /// Every entry of the map, each key once, in no particular order.
    pub fn iter(&self) -> (r: Vec<(u32, &Right)>)
        ensures
            r@.len() == self@.len(),
            r@.map_values(|e: (u32, &Right)| e.0).no_duplicates(),
            r@.map_values(|e: (u32, &Right)| e.0).to_set() == self@.dom(),
            forall|i: int|
                0 <= i < r@.len() ==> self@.contains_key((#[trigger] r@[i]).0) && *r@[i].1
                    == self@[r@[i].0],
    {
        let keys = self.keys();
        let mut out: Vec<(u32, &Right)> = Vec::new();
        let n = keys.len();
        let mut i: usize = 0;
        while i < n
            invariant
                i <= n,
                n == keys@.len(),
                keys@.to_set() == self@.dom(),
                out@.len() == i,
                out@.map_values(|e: (u32, &Right)| e.0) =~= keys@.take(i as int),
                forall|j: int|
                    0 <= j < out@.len() ==> self@.contains_key((#[trigger] out@[j]).0)
                        && *out@[j].1 == self@[out@[j].0],
            decreases n - i,
        {
            let k = keys[i];
            proof {
                assert(keys@.to_set().contains(keys@[i as int]));
            }
            if let Some(v) = self.sessions.get(&k) {
                out.push((k, v));
            }
            i = i + 1;
        }
        proof {
            assert(keys@.take(n as int) =~= keys@);
            keys@.unique_seq_to_set();
        }
        out
    }

    /// The keys of the map, each once, in no particular order.
    pub fn keys(&self) -> (r: Vec<u32>)
        ensures
            r@.no_duplicates(),
            r@.to_set() == self@.dom(),
    {
        let mut out: Vec<u32> = Vec::new();
        let ghost all = self.sessions.keys().remaining();
        for k in it: self.sessions.keys()
            invariant
                it.seq() == all,
                out@ =~= it.seq().take(it.index()).unref(),
        {
            out.push(*k);
        }
        proof {
            assert(all.take(all.len() as int) =~= all);
            assert(out@ =~= all.unref());
            assert forall|i: int, j: int| 0 <= i < j < out@.len() implies out@[i] != out@[j] by {
                assert(all[i] != all[j]);
            }
        }
        out
    }
}

} // verus!
