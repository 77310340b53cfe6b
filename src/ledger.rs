use vstd::prelude::*;
use crate::types::ContractError;

verus! {

/// A record that is stored under the asset identifier it carries.
pub trait Keyed: View + Sized {
    spec fn key(&self) -> Seq<char>;

    fn key_ref(&self) -> (r: &String)
        ensures
            r@ == self.key();
}

/// Records keyed by asset identifier: at most one per key.
pub struct Ledger<R: Keyed> {
    entries: Vec<R>,
    records: Ghost<Map<Seq<char>, R::V>>,
}

impl<R: Keyed> View for Ledger<R> {
    type V = Map<Seq<char>, R::V>;

    closed spec fn view(&self) -> Map<Seq<char>, R::V> {
        self.records@
    }
}

impl<R: Keyed> Ledger<R> {
    /// The stored entries agree with the map of records: each entry sits
    /// under its own key, each key has an entry, and no key repeats.
    pub closed spec fn wf(&self) -> bool {
        &&& forall|i: int|
            0 <= i < self.entries.len() ==> {
                &&& #[trigger] self.records@.contains_key(self.entries@[i].key())
                &&& self.records@[self.entries@[i].key()] == self.entries@[i]@
            }
        &&& forall|k: Seq<char>|
            #[trigger] self.records@.contains_key(k) ==> exists|i: int|
                0 <= i < self.entries.len() && #[trigger] self.entries@[i].key() == k
        &&& forall|i: int, j: int|
            0 <= i < self.entries.len() && 0 <= j < self.entries.len() && i != j
                ==> #[trigger] self.entries@[i].key() != #[trigger] self.entries@[j].key()
        &&& self.records@.dom().finite()
        &&& self.records@.len() == self.entries.len()
    }

    /// Each record in the map is the view of a stored record that carries
    /// the key it sits under.
    pub proof fn lemma_stored_under_own_key(&self)
        requires
            self.wf(),
        ensures
            forall|k: Seq<char>|
                #[trigger] self@.contains_key(k) ==> exists|r: R| r.key() == k && r@ == self@[k],
    {
        assert forall|k: Seq<char>| #[trigger] self@.contains_key(k) implies exists|r: R|
            r.key() == k && r@ == self@[k] by {
            let i = choose|i: int| 0 <= i < self.entries.len() && #[trigger] self.entries@[i].key() == k;
            let r = self.entries@[i];
            assert(r.key() == k && r@ == self@[k]);
        }
    }

    pub fn new() -> (r: Self)
        ensures
            r.wf(),
            r@ == Map::<Seq<char>, R::V>::empty(),
    {
        Ledger { entries: Vec::new(), records: Ghost(Map::empty()) }
    }

    fn find(&self, key: &String) -> (r: Option<usize>)
        requires
            self.wf(),
        ensures
            match r {
                Some(i) => i < self.entries.len() && self.entries@[i as int].key() == key@,
                None => !self@.contains_key(key@),
            },
    {
        let mut i: usize = 0;
        while i < self.entries.len()
            invariant
                i <= self.entries.len(),
                forall|j: int| 0 <= j < i ==> #[trigger] self.entries@[j].key() != key@,
            decreases self.entries.len() - i,
        {
            if *self.entries[i].key_ref() == *key {
                return Some(i);
            }
            i = i + 1;
        }
        None
    }

    /// The number of records.
    pub fn len(&self) -> (r: usize)
        requires
            self.wf(),
        ensures
            r == self@.len(),
    {
        self.entries.len()
    }

    /// Whether a record is stored under `key`.
    pub fn contains(&self, key: &String) -> (r: bool)
        requires
            self.wf(),
        ensures
            r == self@.contains_key(key@),
    {
        self.find(key).is_some()
    }

    /// The record stored under `key`, or `RecordNotFound`.
    pub fn load(&self, key: &String) -> (r: Result<&R, ContractError>)
        requires
            self.wf(),
        ensures
            match r {
                Ok(rec) => self@.contains_key(key@) && rec@ == self@[key@] && rec.key() == key@,
                Err(e) => !self@.contains_key(key@) && e == ContractError::RecordNotFound,
            },
    {
        match self.find(key) {
            Some(i) => {
                assert(self.records@.contains_key(self.entries@[i as int].key()));
                Ok(&self.entries[i])
            },
            None => Err(ContractError::RecordNotFound),
        }
    }

    /// Stores `rec` under its key, replacing any record there.
    pub fn save(&mut self, rec: R)
        requires
            old(self).wf(),
        ensures
            final(self).wf(),
            final(self)@ == old(self)@.insert(rec.key(), rec@),
            final(self)@.len() == old(self)@.len() + if old(self)@.contains_key(rec.key()) {
                0int
            } else {
                1int
            },
    {
        let ghost k = rec.key();
        let ghost v = rec@;
        let ghost old_entries = self.entries@;
        let found = self.find(rec.key_ref());
        self.records = Ghost(self.records@.insert(k, v));
        match found {
            Some(i) => {
                self.entries.set(i, rec);
                assert forall|k2: Seq<char>| #[trigger] self.records@.contains_key(k2) implies exists|j: int|
                    0 <= j < self.entries.len() && #[trigger] self.entries@[j].key() == k2 by {
                    if k2 != k {
                        let j = choose|j: int| 0 <= j < old_entries.len() && #[trigger] old_entries[j].key() == k2;
                        assert(self.entries@[j].key() == k2);
                    } else {
                        assert(self.entries@[i as int].key() == k2);
                    }
                }
                assert(self.records@.dom() =~= old(self).records@.dom());
            },
            None => {
                self.entries.push(rec);
                let ghost n = old_entries.len() as int;
                assert forall|k2: Seq<char>| #[trigger] self.records@.contains_key(k2) implies exists|j: int|
                    0 <= j < self.entries.len() && #[trigger] self.entries@[j].key() == k2 by {
                    if k2 != k {
                        let j = choose|j: int| 0 <= j < old_entries.len() && #[trigger] old_entries[j].key() == k2;
                        assert(self.entries@[j].key() == k2);
                    } else {
                        assert(self.entries@[n].key() == k2);
                    }
                }
                assert forall|j: int| 0 <= j < n implies #[trigger] old_entries[j].key() != k by {
                    assert(old(self).records@.contains_key(old_entries[j].key()));
                }
            },
        }
    }

    /// Removes the record stored under `key`, if any.
    pub fn delete(&mut self, key: &String)
        requires
            old(self).wf(),
        ensures
            final(self).wf(),
            final(self)@ == old(self)@.remove(key@),
            final(self)@.len() == old(self)@.len() - if old(self)@.contains_key(key@) {
                1int
            } else {
                0int
            },
    {
        let ghost old_entries = self.entries@;
        match self.find(key) {
            Some(i) => {
                self.entries.remove(i);
                self.records = Ghost(self.records@.remove(key@));
                assert forall|j: int| 0 <= j < self.entries.len() implies
                    #[trigger] self.records@.contains_key(self.entries@[j].key())
                    && self.records@[self.entries@[j].key()] == self.entries@[j]@ by {
                    if j < i {
                        assert(self.entries@[j] == old_entries[j]);
                        assert(old_entries[j].key() != old_entries[i as int].key());
                    } else {
                        assert(self.entries@[j] == old_entries[j + 1]);
                        assert(old_entries[j + 1].key() != old_entries[i as int].key());
                    }
                }
                assert forall|k2: Seq<char>| #[trigger] self.records@.contains_key(k2) implies exists|j: int|
                    0 <= j < self.entries.len() && #[trigger] self.entries@[j].key() == k2 by {
                    let j = choose|j: int| 0 <= j < old_entries.len() && #[trigger] old_entries[j].key() == k2;
                    if j < i {
                        assert(self.entries@[j].key() == k2);
                    } else {
                        assert(j != i);
                        assert(self.entries@[j - 1].key() == k2);
                    }
                }
                assert forall|a: int, b: int|
                    0 <= a < self.entries.len() && 0 <= b < self.entries.len() && a != b implies
                    #[trigger] self.entries@[a].key() != #[trigger] self.entries@[b].key() by {
                    let oa = if a < i { a } else { a + 1 };
                    let ob = if b < i { b } else { b + 1 };
                    assert(self.entries@[a] == old_entries[oa]);
                    assert(self.entries@[b] == old_entries[ob]);
                }
            },
            None => {
                assert(self.records@.remove(key@) =~= self.records@);
            },
        }
    }
}

} // verus!
