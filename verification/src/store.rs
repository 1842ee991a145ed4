//! The credential store: the secure-storage facility the backend adapter
//! writes to, reads from, and deletes from.
//!
//! The store holds raw secret bytes addressed by a `(service, account)`
//! pair, and is viewed abstractly as a [`Map`] from addresses to byte
//! sequences. Secrets are kept as bytes, not strings: the facility is
//! shared with other tools, which may store values that are not valid
//! UTF-8, and [`CredentialStore::write`] deliberately accepts any bytes so
//! that such values can exist. Writing is an upsert: it creates the entry
//! if absent and overwrites it if present.

use vstd::prelude::*;

verus! {

/// One stored secret: its address (service and account names) and its raw
/// bytes.
struct StoreEntry {
    service: String,
    account: String,
    secret: Vec<u8>,
}

/// The address an entry is looked up by.
spec fn entry_key(e: StoreEntry) -> (Seq<char>, Seq<char>) {
    (e.service@, e.account@)
}

/// True when some entry carries the given address.
spec fn has_key(s: Seq<StoreEntry>, k: (Seq<char>, Seq<char>)) -> bool {
    exists|i: int| 0 <= i < s.len() && entry_key(s[i]) == k
}

/// The index of the entry carrying the given address, when one exists.
spec fn index_of_key(s: Seq<StoreEntry>, k: (Seq<char>, Seq<char>)) -> int {
    choose|i: int| 0 <= i < s.len() && entry_key(s[i]) == k
}

/// The entries as a map from address to secret bytes.
spec fn entries_map(s: Seq<StoreEntry>) -> Map<(Seq<char>, Seq<char>), Seq<u8>> {
    Map::new(
        |k: (Seq<char>, Seq<char>)| has_key(s, k),
        |k: (Seq<char>, Seq<char>)| s[index_of_key(s, k)].secret@,
    )
}

/// Each address is carried by at most one entry.
spec fn keys_unique(s: Seq<StoreEntry>) -> bool {
    forall|i: int, j: int| 0 <= i < j < s.len() ==> entry_key(s[i]) != entry_key(s[j])
}

/// With unique keys, the map's value at an entry's address is that entry's
/// secret.
proof fn lemma_map_value_at(s: Seq<StoreEntry>, i: int)
    requires
        keys_unique(s),
        0 <= i < s.len(),
    ensures
        entries_map(s).contains_key(entry_key(s[i])),
        entries_map(s)[entry_key(s[i])] == s[i].secret@,
{
    let k = entry_key(s[i]);
    assert(has_key(s, k));
    let j = index_of_key(s, k);
    assert(0 <= j < s.len() && entry_key(s[j]) == k);
    assert(j == i);
}

/// Pushing an entry with a fresh address inserts it into the map view.
proof fn lemma_map_push(s: Seq<StoreEntry>, e: StoreEntry)
    requires
        keys_unique(s),
        !has_key(s, entry_key(e)),
    ensures
        keys_unique(s.push(e)),
        entries_map(s.push(e)) =~= entries_map(s).insert(entry_key(e), e.secret@),
{
    let s2 = s.push(e);
    let k = entry_key(e);
    let n = s.len() as int;
    assert forall|a: int, b: int| 0 <= a < b < s2.len() implies entry_key(s2[a]) != entry_key(
        s2[b],
    ) by {
        if b == n {
            assert(s2[a] == s[a]);
            if entry_key(s[a]) == k {
                assert(has_key(s, k));
            }
        } else {
            assert(s2[a] == s[a] && s2[b] == s[b]);
        }
    }
    let m1 = entries_map(s2);
    let m2 = entries_map(s).insert(k, e.secret@);
    assert forall|q: (Seq<char>, Seq<char>)| #[trigger] m1.contains_key(q) implies m2.contains_key(
        q,
    ) && m1[q] == m2[q] by {
        let j = index_of_key(s2, q);
        assert(0 <= j < s2.len() && entry_key(s2[j]) == q);
        lemma_map_value_at(s2, j);
        if j == n {
            assert(q == k);
        } else {
            assert(s2[j] == s[j]);
            assert(has_key(s, q));
            if q == k {
                assert(has_key(s, k));
            }
            lemma_map_value_at(s, j);
        }
    }
    assert forall|q: (Seq<char>, Seq<char>)| #[trigger] m2.contains_key(q) implies m1.contains_key(
        q,
    ) by {
        if q == k {
            assert(entry_key(s2[n]) == k);
            assert(has_key(s2, k));
        } else {
            let j = index_of_key(s, q);
            assert(0 <= j < s.len() && entry_key(s[j]) == q);
            assert(s2[j] == s[j]);
            assert(has_key(s2, q));
        }
    }
    assert(m1 =~= m2);
}

/// Removing the entry at an address removes that address from the map view.
proof fn lemma_map_remove(s: Seq<StoreEntry>, i: int)
    requires
        keys_unique(s),
        0 <= i < s.len(),
    ensures
        keys_unique(s.remove(i)),
        !has_key(s.remove(i), entry_key(s[i])),
        entries_map(s.remove(i)) =~= entries_map(s).remove(entry_key(s[i])),
{
    let s2 = s.remove(i);
    let k = entry_key(s[i]);
    assert(s2.len() == s.len() - 1);
    assert forall|j: int| 0 <= j < s2.len() implies s2[j] == (if j < i {
        s[j]
    } else {
        s[j + 1]
    }) by {
        if j < i {
            assert(s2[j] == s.subrange(0, i)[j]);
        } else {
            assert(s2[j] == s.subrange(i + 1, s.len() as int)[j - i]);
        }
    }
    assert forall|a: int, b: int| 0 <= a < b < s2.len() implies entry_key(s2[a]) != entry_key(
        s2[b],
    ) by {
        let a1: int = if a < i { a } else { a + 1 };
        let b1: int = if b < i { b } else { b + 1 };
        assert(s2[a] == s[a1] && s2[b] == s[b1]);
        assert(0 <= a1 < b1 < s.len());
    }
    assert forall|j: int| 0 <= j < s2.len() implies entry_key(s2[j]) != k by {
        let j1: int = if j < i { j } else { j + 1 };
        assert(s2[j] == s[j1]);
        if j1 < i {
            assert(entry_key(s[j1]) != entry_key(s[i]));
        } else {
            assert(entry_key(s[i]) != entry_key(s[j1]));
        }
    }
    assert(!has_key(s2, k));
    let m1 = entries_map(s2);
    let m2 = entries_map(s).remove(k);
    assert forall|q: (Seq<char>, Seq<char>)| #[trigger] m1.contains_key(q) implies m2.contains_key(
        q,
    ) && m1[q] == m2[q] by {
        let j = index_of_key(s2, q);
        assert(0 <= j < s2.len() && entry_key(s2[j]) == q);
        lemma_map_value_at(s2, j);
        let j1: int = if j < i { j } else { j + 1 };
        assert(s[j1] == s2[j]);
        assert(has_key(s, q));
        assert(q != k);
        lemma_map_value_at(s, j1);
    }
    assert forall|q: (Seq<char>, Seq<char>)| #[trigger] m2.contains_key(q) implies m1.contains_key(
        q,
    ) by {
        let j = index_of_key(s, q);
        assert(0 <= j < s.len() && entry_key(s[j]) == q);
        assert(j != i);
        let j2: int = if j < i { j } else { j - 1 };
        assert(s2[j2] == s[j]);
        assert(has_key(s2, q));
    }
    assert(m1 =~= m2);
}

/// The secure-storage facility, holding raw secret bytes addressed by a
/// `(service, account)` pair.
pub struct CredentialStore {
    entries: Vec<StoreEntry>,
}

impl CredentialStore {
    #[verifier::type_invariant]
    spec fn wf(self) -> bool {
        keys_unique(self.entries@)
    }

    /// The stored secrets, as a map from `(service, account)` address to
    /// secret bytes.
    pub closed spec fn contents(self) -> Map<(Seq<char>, Seq<char>), Seq<u8>> {
        entries_map(self.entries@)
    }

    /// An empty store.
    pub fn new() -> (s: Self)
        ensures
            s.contents() == Map::<(Seq<char>, Seq<char>), Seq<u8>>::empty(),
    {
        let s = CredentialStore { entries: Vec::new() };
        proof {
            assert(s.contents() =~= Map::<(Seq<char>, Seq<char>), Seq<u8>>::empty());
        }
        s
    }

    /// The index of the entry at the given address, if one exists.
    fn find_index(&self, service: &String, account: &String) -> (r: Option<usize>)
        ensures
            match r {
                Some(i) => i < self.entries@.len() && entry_key(self.entries@[i as int]) == (
                    service@,
                    account@,
                ),
                None => !has_key(self.entries@, (service@, account@)),
            },
    {
        let mut i: usize = 0;
        while i < self.entries.len()
            invariant
                i <= self.entries@.len(),
                forall|j: int|
                    0 <= j < i ==> entry_key(self.entries@[j]) != (service@, account@),
            decreases self.entries@.len() - i,
        {
            let e = &self.entries[i];
            if e.service.eq(service) && e.account.eq(account) {
                return Some(i);
            }
            i += 1;
        }
        None
    }

    /// Stores the given bytes at the given address, creating the entry if
    /// it is absent and overwriting it if it is present (an upsert). Any
    /// bytes are accepted: the facility itself does not require secrets to
    /// be UTF-8.
    pub fn write(&mut self, service: &String, account: &String, secret: Vec<u8>)
        ensures
            final(self).contents() == old(self).contents().insert(
                (service@, account@),
                secret@,
            ),
    {
        proof {
            use_type_invariant(&*self);
        }
        let ghost k = (service@, account@);
        let found = self.find_index(service, account);
        let mut entries: Vec<StoreEntry> = Vec::new();
        std::mem::swap(&mut entries, &mut self.entries);
        let ghost s0 = entries@;
        if let Some(i) = found {
            entries.remove(i);
            proof {
                lemma_map_remove(s0, i as int);
            }
        }
        let ghost s1 = entries@;
        let entry = StoreEntry { service: service.clone(), account: account.clone(), secret };
        proof {
            assert(entry_key(entry) == k);
        }
        entries.push(entry);
        proof {
            lemma_map_push(s1, entry);
            assert(entries_map(entries@) =~= entries_map(s0).insert(k, entry.secret@));
        }
        self.entries = entries;
    }

    /// The secret bytes stored at the given address, if any.
    pub fn find(&self, service: &String, account: &String) -> (r: Option<&Vec<u8>>)
        ensures
            match r {
                Some(b) => self.contents().contains_key((service@, account@)) && b@
                    == self.contents()[(service@, account@)],
                None => !self.contents().contains_key((service@, account@)),
            },
    {
        proof {
            use_type_invariant(&*self);
        }
        match self.find_index(service, account) {
            Some(i) => {
                proof {
                    lemma_map_value_at(self.entries@, i as int);
                }
                Some(&self.entries[i].secret)
            },
            None => None,
        }
    }

    /// Deletes the entry at the given address. Returns whether an entry was
    /// there to delete; the address is absent afterwards either way.
    pub fn delete(&mut self, service: &String, account: &String) -> (r: bool)
        ensures
            r == old(self).contents().contains_key((service@, account@)),
            final(self).contents() == old(self).contents().remove((service@, account@)),
    {
        proof {
            use_type_invariant(&*self);
        }
        let ghost k = (service@, account@);
        match self.find_index(service, account) {
            Some(i) => {
                let mut entries: Vec<StoreEntry> = Vec::new();
                std::mem::swap(&mut entries, &mut self.entries);
                let ghost s0 = entries@;
                entries.remove(i);
                proof {
                    lemma_map_remove(s0, i as int);
                }
                self.entries = entries;
                true
            },
            None => {
                proof {
                    assert(self.contents() =~= self.contents().remove(k));
                }
                false
            },
        }
    }
}

} // verus!
