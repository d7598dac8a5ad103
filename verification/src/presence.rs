//! The presence signal store and the owner directory.
//!
//! A presence signal is a transient entry keyed by the owner's badge
//! identifier, holding a readiness flag.  An external tap-recording process
//! writes it; the consent gate consumes it through one atomic
//! read-and-delete, so a signal can never be read twice.

use vstd::prelude::*;

verus! {

/// First entry at or past `from` keyed by `key`.
pub open spec fn spec_find_key_from(entries: Seq<(i32, bool)>, key: int, from: int) -> Option<int>
    decreases entries.len() - from,
{
    if from < 0 || from >= entries.len() {
        None
    } else if entries[from].0 == key {
        Some(from)
    } else {
        spec_find_key_from(entries, key, from + 1)
    }
}

/// First entry keyed by `key`.
pub open spec fn spec_find_key(entries: Seq<(i32, bool)>, key: int) -> Option<int> {
    spec_find_key_from(entries, key, 0)
}

/// Some entry is keyed by `key`.
pub open spec fn spec_has_key(entries: Seq<(i32, bool)>, key: int) -> bool {
    exists|i: int| 0 <= i < entries.len() && (#[trigger] entries[i].0) == key
}

/// A found key search stays in range and lands on the key.
pub proof fn lemma_find_key_in_range(entries: Seq<(i32, bool)>, key: int, from: int)
    ensures
        spec_find_key_from(entries, key, from) matches Some(i) ==> from <= i < entries.len()
            && entries[i].0 == key,
    decreases entries.len() - from,
{
    if from < 0 || from >= entries.len() {
    } else if entries[from].0 == key {
    } else {
        lemma_find_key_in_range(entries, key, from + 1);
    }
}

/// A failed key search means no entry at or past `from` carries the key.
pub proof fn lemma_find_key_none(entries: Seq<(i32, bool)>, key: int, from: int)
    requires
        0 <= from,
        spec_find_key_from(entries, key, from) is None,
    ensures
        forall|i: int| from <= i < entries.len() ==> (#[trigger] entries[i].0) != key,
    decreases entries.len() - from,
{
    if from < 0 || from >= entries.len() {
    } else {
        assert(entries[from].0 != key);
        lemma_find_key_none(entries, key, from + 1);
    }
}

/// If no entry carries the key, the search fails.
pub proof fn lemma_no_key_no_find(entries: Seq<(i32, bool)>, key: int, from: int)
    requires
        forall|i: int| 0 <= i < entries.len() ==> (#[trigger] entries[i].0) != key,
    ensures
        spec_find_key_from(entries, key, from) is None,
    decreases entries.len() - from,
{
    if from < 0 || from >= entries.len() {
    } else {
        lemma_no_key_no_find(entries, key, from + 1);
    }
}

/// The key-value store of presence signals.
pub struct PresenceStore {
    pub entries: Vec<(i32, bool)>,
}

impl PresenceStore {
    /// Keys are unique, so one atomic read-and-delete removes the only
    /// entry for its key.
    pub open spec fn wf(self) -> bool {
        forall|i: int, j: int|
            0 <= i < j < self.entries@.len() ==> (#[trigger] self.entries@[i].0) != (
            #[trigger] self.entries@[j].0)
    }

    /// An empty store.
    pub fn new() -> (r: PresenceStore)
        ensures
            r.wf(),
            r.entries@.len() == 0,
    {
        PresenceStore { entries: Vec::new() }
    }

    /// Records a presence signal: the readiness flag the external
    /// tap-recording process writes for this badge identifier.  An entry
    /// already present for the key is overwritten.
    pub fn put(&mut self, key: i32, ready: bool)
        requires
            old(self).wf(),
        ensures
            final(self).wf(),
            match spec_find_key(old(self).entries@, key as int) {
                None => final(self).entries@ == old(self).entries@.push((key, ready)),
                Some(i) => final(self).entries@ == old(self).entries@.update(i, (key, ready)),
            },
    {
        let ghost prev = self.entries@;
        let n = self.entries.len();
        let mut i: usize = 0;
        while i < n
            invariant
                old(self).wf(),
                self.entries@ == old(self).entries@,
                prev == old(self).entries@,
                n == prev.len(),
                0 <= i <= n,
                spec_find_key(prev, key as int) == spec_find_key_from(prev, key as int, i as int),
            decreases n - i,
        {
            if self.entries[i].0 == key {
                proof {
                    assert(spec_find_key_from(prev, key as int, i as int) == Some(i as int));
                }
                self.entries.set(i, (key, ready));
                proof {
                    assert(self.entries@ =~= prev.update(i as int, (key, ready)));
                    let e = self.entries@;
                    assert(prev[i as int].0 == key as int);
                    assert forall|a: int, b: int| 0 <= a < b < e.len() implies (#[trigger] e[a].0)
                        != (#[trigger] e[b].0) by {
                        assert(e[a].0 == prev[a].0 && e[b].0 == prev[b].0);
                        assert(prev[a].0 != prev[b].0);
                    }
                }
                return ;
            }
            i = i + 1;
        }
        proof {
            lemma_find_key_none(prev, key as int, 0);
        }
        self.entries.push((key, ready));
        proof {
            assert(self.entries@ =~= prev.push((key, ready)));
            let e = self.entries@;
            assert forall|a: int, b: int| 0 <= a < b < e.len() implies (#[trigger] e[a].0) != (
            #[trigger] e[b].0) by {
                if b == e.len() - 1 {
                    assert(prev[a].0 != key as int);
                }
            }
        }
    }

    /// One atomic read-and-delete: returns the readiness flag for `key`
    /// and removes the entry, so that no later read can see it again.
    /// Absent entries read as absent and leave the store unchanged.
    pub fn getdel(&mut self, key: i32) -> (r: Option<bool>)
        requires
            old(self).wf(),
        ensures
            final(self).wf(),
            match spec_find_key(old(self).entries@, key as int) {
                None => r is None && final(self).entries@ == old(self).entries@,
                Some(i) => {
                    &&& r == Some(old(self).entries@[i].1)
                    &&& final(self).entries@ == old(self).entries@.remove(i)
                    &&& !spec_has_key(final(self).entries@, key as int)
                },
            },
    {
        let ghost prev = self.entries@;
        let n = self.entries.len();
        let mut i: usize = 0;
        while i < n
            invariant
                old(self).wf(),
                self.entries@ == old(self).entries@,
                prev == old(self).entries@,
                n == prev.len(),
                0 <= i <= n,
                spec_find_key(prev, key as int) == spec_find_key_from(prev, key as int, i as int),
            decreases n - i,
        {
            if self.entries[i].0 == key {
                proof {
                    assert(spec_find_key_from(prev, key as int, i as int) == Some(i as int));
                }
                let flag = self.entries[i].1;
                self.entries.remove(i);
                proof {
                    prev.remove_ensures(i as int);
                    assert(self.entries@ == prev.remove(i as int));
                    let e = self.entries@;
                    assert forall|k: int| 0 <= k < e.len() implies (#[trigger] e[k].0) != key
                        as int by {
                        if k < i as int {
                            assert(prev.remove(i as int)[k] == prev[k]);
                            assert(prev[k].0 != prev[i as int].0);
                        } else {
                            assert(prev.remove(i as int)[k] == prev[k + 1]);
                            assert(prev[i as int].0 != prev[k + 1].0);
                        }
                    }
                    assert forall|a: int, b: int| 0 <= a < b < e.len() implies (#[trigger] e[a].0)
                        != (#[trigger] e[b].0) by {
                        let pa = if a < i as int { a } else { a + 1 };
                        let pb = if b < i as int { b } else { b + 1 };
                        assert(prev.remove(i as int)[a] == prev[pa]);
                        assert(prev.remove(i as int)[b] == prev[pb]);
                        assert(prev[pa].0 != prev[pb].0);
                    }
                }
                return Some(flag);
            }
            i = i + 1;
        }
        None
    }
}

/// One provisioned or unprovisioned resource owner.
pub struct OwnerRecord {
    /// The owner's badge identifier.
    pub id: i32,
    /// Whether the owner has been provisioned for authorization.
    pub activated: bool,
}

/// First owner record at or past `from` with identifier `id`.
pub open spec fn spec_find_owner_from(owners: Seq<OwnerRecord>, id: int, from: int) -> Option<int>
    decreases owners.len() - from,
{
    if from < 0 || from >= owners.len() {
        None
    } else if owners[from].id == id {
        Some(from)
    } else {
        spec_find_owner_from(owners, id, from + 1)
    }
}

/// First owner record with identifier `id`.
pub open spec fn spec_find_owner(owners: Seq<OwnerRecord>, id: int) -> Option<int> {
    spec_find_owner_from(owners, id, 0)
}

/// The directory of known resource owners.
pub struct OwnerDirectory {
    pub owners: Vec<OwnerRecord>,
}

impl OwnerDirectory {
    /// Looks an owner up by badge identifier.
    pub fn find(&self, id: i32) -> (r: Option<&OwnerRecord>)
        ensures
            match r {
                Some(o) => spec_find_owner(self.owners@, id as int) matches Some(i)
                    && self.owners@[i] == *o,
                None => spec_find_owner(self.owners@, id as int) is None,
            },
    {
        let n = self.owners.len();
        let mut i: usize = 0;
        while i < n
            invariant
                n == self.owners@.len(),
                0 <= i <= n,
                spec_find_owner(self.owners@, id as int) == spec_find_owner_from(
                    self.owners@,
                    id as int,
                    i as int,
                ),
            decreases n - i,
        {
            if self.owners[i].id == id {
                return Some(&self.owners[i]);
            }
            i = i + 1;
        }
        None
    }
}

/// A found owner search stays in range and lands on the identifier.
pub proof fn lemma_find_owner_in_range(owners: Seq<OwnerRecord>, id: int, from: int)
    ensures
        spec_find_owner_from(owners, id, from) matches Some(i) ==> from <= i < owners.len()
            && owners[i].id == id,
    decreases owners.len() - from,
{
    if from < 0 || from >= owners.len() {
    } else if owners[from].id == id {
    } else {
        lemma_find_owner_in_range(owners, id, from + 1);
    }
}

} // verus!
