use vstd::prelude::*;

verus! {

/// One record of an instance store; a later record with the same key
/// shadows an earlier one.
pub struct StoreEntry {
    pub key: u64,
    pub val: Vec<u8>,
}

impl Clone for StoreEntry {
    fn clone(&self) -> (res: Self)
        ensures
            res.key == self.key,
            res.val@ == self.val@,
    {
        StoreEntry { key: self.key, val: clone_bytes(&self.val) }
    }
}

/// A byte-for-byte copy of a byte vector.
pub fn clone_bytes(v: &Vec<u8>) -> (r: Vec<u8>)
    ensures
        r@ == v@,
{
    let r = v.clone();
    proof {
        assert forall|i: int| 0 <= i < v@.len() implies r@[i] == v@[i] by {
            assert(cloned::<u8>(v@[i], r@[i]));
        }
        assert(r@ =~= v@);
    }
    r
}

/// The key-value map a record sequence denotes: later records win.
pub open spec fn store_map(s: Seq<StoreEntry>) -> Map<u64, Seq<u8>>
    decreases s.len(),
{
    if s.len() == 0 {
        Map::empty()
    } else {
        store_map(s.drop_last()).insert(s.last().key, s.last().val@)
    }
}

pub proof fn lemma_store_map_congruent(s1: Seq<StoreEntry>, s2: Seq<StoreEntry>)
    requires
        s1.len() == s2.len(),
        forall|j: int| 0 <= j < s1.len() ==> s1[j].key == s2[j].key && s1[j].val@ == s2[j].val@,
    ensures
        store_map(s1) == store_map(s2),
    decreases s1.len(),
{
    if s1.len() > 0 {
        assert(s1.drop_last().len() == s2.drop_last().len());
        lemma_store_map_congruent(s1.drop_last(), s2.drop_last());
    }
}

/// The isolated persistent key-value state of one contract instance,
/// viewed as a map from keys to byte strings.
pub struct Store {
    entries: Vec<StoreEntry>,
}

impl View for Store {
    type V = Map<u64, Seq<u8>>;

    closed spec fn view(&self) -> Map<u64, Seq<u8>> {
        store_map(self.entries@)
    }
}

impl Store {
    pub fn new() -> (s: Store)
        ensures
            s@ == Map::<u64, Seq<u8>>::empty(),
    {
        Store { entries: Vec::new() }
    }

    /// Writes `val` under `key`, replacing any earlier value.
    pub fn set(&mut self, key: u64, val: Vec<u8>)
        ensures
            final(self)@ == old(self)@.insert(key, val@),
    {
        let ghost s0 = self.entries@;
        let ghost v = val@;
        self.entries.push(StoreEntry { key, val });
        proof {
            assert(self.entries@.drop_last() =~= s0);
            assert(self.entries@.last().key == key && self.entries@.last().val@ == v);
        }
    }

    /// Reads the current value under `key`, if any.
    pub fn get(&self, key: u64) -> (r: Option<Vec<u8>>)
        ensures
            match r {
                Some(v) => self@.contains_key(key) && v@ == self@[key],
                None => !self@.contains_key(key),
            },
    {
        let ghost s = self.entries@;
        let mut i: usize = self.entries.len();
        proof {
            assert(s.take(i as int) =~= s);
        }
        while i > 0
            invariant
                i <= s.len(),
                s == self.entries@,
                store_map(s).contains_key(key) == store_map(s.take(i as int)).contains_key(key),
                store_map(s).contains_key(key) ==> store_map(s.take(i as int))[key] == store_map(
                    s,
                )[key],
            decreases i,
        {
            i = i - 1;
            proof {
                assert(s.take(i + 1 as int).drop_last() =~= s.take(i as int));
                assert(s.take(i + 1 as int).last() == s[i as int]);
            }
            if self.entries[i].key == key {
                return Some(clone_bytes(&self.entries[i].val));
            }
        }
        proof {
            assert(s.take(0) =~= Seq::<StoreEntry>::empty());
        }
        None
    }

    /// An exact copy of the store's contents, for the router's rollback
    /// discipline.
    pub(crate) fn snapshot(&self) -> (r: Store)
        ensures
            r@ == self@,
    {
        let entries = self.entries.clone();
        proof {
            assert forall|j: int|
                0 <= j < self.entries@.len() implies entries@[j].key == self.entries@[j].key
                && entries@[j].val@ == self.entries@[j].val@ by {
                assert(cloned::<StoreEntry>(self.entries@[j], entries@[j]));
            }
            lemma_store_map_congruent(entries@, self.entries@);
        }
        Store { entries }
    }
}

} // verus!
