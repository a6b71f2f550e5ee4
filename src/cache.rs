use crate::record::User;
use vstd::prelude::*;

verus! {

/// One cached record, under the id it is stored by.
pub struct CacheEntry {
    pub key: String,
    pub value: User,
}

/// The volatile tier: an unbounded map from record id to record. Entries are
/// kept in a vector whose keys are pairwise distinct; `model` is the map they
/// spell out. Its operations are synchronous, so the service can settle a
/// request in one step, and none of them fails: running out of memory aborts.
pub struct Cache {
    entries: Vec<CacheEntry>,
    model: Ghost<Map<Seq<char>, Seq<char>>>,
}

impl View for Cache {
    type V = Map<Seq<char>, Seq<char>>;

    closed spec fn view(&self) -> Map<Seq<char>, Seq<char>> {
        self.model@
    }
}

impl Cache {
    /// Keys are distinct, and the entries hold exactly the model's pairs.
    pub closed spec fn wf(&self) -> bool {
        &&& forall|i: int, j: int|
            0 <= i < j < self.entries@.len() ==> self.entries@[i].key@
                != self.entries@[j].key@
        &&& forall|i: int|
            0 <= i < self.entries@.len() ==> {
                &&& #[trigger] self.model@.contains_key(self.entries@[i].key@)
                &&& self.model@[self.entries@[i].key@] == self.entries@[i].value@
            }
        &&& forall|k: Seq<char>|
            #[trigger] self.model@.contains_key(k) ==> exists|i: int|
                0 <= i < self.entries@.len() && self.entries@[i].key@ == k
    }

    pub fn new() -> (r: Cache)
        ensures
            r.wf(),
            r@ == Map::<Seq<char>, Seq<char>>::empty(),
    {
        Cache { entries: Vec::new(), model: Ghost(Map::empty()) }
    }

    /// Position of `key` among the entries, if it is there.
    fn position(&self, key: &String) -> (r: Option<usize>)
        requires
            self.wf(),
        ensures
            match r {
                Some(i) => i < self.entries@.len() && self.entries@[i as int].key@ == key@,
                None => !self@.contains_key(key@),
            },
    {
        let mut i: usize = 0;
        while i < self.entries.len()
            invariant
                self.wf(),
                i <= self.entries@.len(),
                forall|j: int| 0 <= j < i ==> self.entries@[j].key@ != key@,
            decreases self.entries@.len() - i,
        {
            if self.entries[i].key == *key {
                return Some(i);
            }
            i = i + 1;
        }
        None
    }

    /// The cached record for `key`, if any.
    pub fn lookup(&self, key: &String) -> (r: Option<User>)
        requires
            self.wf(),
        ensures
            match r {
                Some(u) => self@.contains_key(key@) && u@ == self@[key@],
                None => !self@.contains_key(key@),
            },
    {
        match self.position(key) {
            Some(i) => {
                assert(self.model@.contains_key(self.entries@[i as int].key@));
                Some(self.entries[i].value.duplicate())
            },
            None => None,
        }
    }

    /// Stores `value` under `key`, replacing whatever was there.
    pub fn insert(&mut self, key: &String, value: User)
        requires
            old(self).wf(),
        ensures
            final(self).wf(),
            final(self)@ == old(self)@.insert(key@, value@),
    {
        let ghost k = key@;
        let ghost v = value@;
        let ghost before = self.entries@;
        let entry = CacheEntry { key: key.clone(), value };
        match self.position(key) {
            Some(i) => {
                self.entries.set(i, entry);
                assert(self.entries@ == before.update(i as int, entry));
            },
            None => {
                self.entries.push(entry);
                assert(self.entries@ == before.push(entry));
            },
        }
        self.model = Ghost(self.model@.insert(k, v));
        assert forall|k2: Seq<char>| #[trigger] self.model@.contains_key(k2) implies exists|i: int|
            0 <= i < self.entries@.len() && self.entries@[i].key@ == k2 by {
            if k2 != k {
                let j = choose|j: int| 0 <= j < before.len() && before[j].key@ == k2;
                assert(self.entries@[j].key@ == k2);
            } else if self.entries@.len() > before.len() {
                assert(self.entries@[before.len() as int].key@ == k);
            } else {
                let j = choose|j: int| 0 <= j < before.len() && before[j].key@ == k;
                assert(self.entries@[j].key@ == k);
            }
        }
    }

    /// Drops the entry for `key`; nothing happens where there is none.
    pub fn remove(&mut self, key: &String)
        requires
            old(self).wf(),
        ensures
            final(self).wf(),
            final(self)@ == old(self)@.remove(key@),
    {
        match self.position(key) {
            Some(i) => {
                let ghost before = self.entries@;
                let _ = self.entries.swap_remove(i);
                self.model = Ghost(self.model@.remove(key@));
                assert forall|k2: Seq<char>| #[trigger] self.model@.contains_key(k2) implies exists|j: int|
                    0 <= j < self.entries@.len() && self.entries@[j].key@ == k2 by {
                    let j = choose|j: int| 0 <= j < before.len() && before[j].key@ == k2;
                    if j == before.len() - 1 {
                        assert(self.entries@[i as int].key@ == k2);
                    } else {
                        assert(self.entries@[j].key@ == k2);
                    }
                }
            },
            None => {
                assert(self.model@.remove(key@) =~= self.model@);
            },
        }
    }
}

} // verus!
