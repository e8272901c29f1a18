//! A string-keyed cache split into shards; a key's shard is chosen by a hash of its UTF-8
//! bytes.
use vstd::prelude::*;
use vstd::string::StringSliceAdditionalSpecFns;
use vstd::wrapping::usize_specs;
use crate::assoc::{
    assoc_get, assoc_insert, assoc_lookup, assoc_map, assoc_remove, keys_distinct,
    lemma_lookup_some,
};

verus! {

/// The hash of a key's bytes: `h * 31 + b` over the bytes, wrapping at the width of `usize`.
pub open spec fn spec_hash(bytes: Seq<u8>) -> usize
    decreases bytes.len(),
{
    if bytes.len() == 0 {
        0
    } else {
        usize_specs::wrapping_add(
            usize_specs::wrapping_mul(spec_hash(bytes.drop_last()), 31),
            bytes.last() as usize,
        )
    }
}

/// The shard that holds `key` among `n` shards.
pub open spec fn shard_of(key: Seq<char>, n: nat) -> int {
    (spec_hash(vstd::utf8::encode_utf8(key)) as nat % n) as int
}

/// A cache of values by string key, split into shards.
pub struct ShardedCache<T> {
    shards: Vec<Vec<(String, T)>>,
}

/// A message to a cache: insert a value, remove a key, or look a key up.
pub enum CacheSet<T> {
    Insert { key: String, value: T },
    Remove { key: String },
    Get { key: String },
}

impl<T> ShardedCache<T> {
    #[verifier::type_invariant]
    closed spec fn inv(self) -> bool {
        forall|i: int|
            0 <= i < self.shards@.len() ==> {
                &&& keys_distinct(#[trigger] self.shards@[i]@)
                &&& forall|j: int|
                    0 <= j < self.shards@[i]@.len() ==> shard_of(
                        #[trigger] self.shards@[i]@[j].0@,
                        self.shards@.len() as nat,
                    ) == i
            }
    }

    /// The number of shards.
    pub closed spec fn shard_count(self) -> nat {
        self.shards@.len()
    }

    /// What a lookup of `k` finds.
    closed spec fn lookup(self, k: Seq<char>) -> Option<T> {
        if self.shards@.len() == 0 {
            None
        } else {
            assoc_lookup(self.shards@[shard_of(k, self.shards@.len() as nat)]@, k)
        }
    }
}

impl<T> View for ShardedCache<T> {
    type V = Map<Seq<char>, T>;

    closed spec fn view(&self) -> Map<Seq<char>, T> {
        Map::new(|k: Seq<char>| self.lookup(k) is Some, |k: Seq<char>| self.lookup(k)->0)
    }
}

impl<T: Clone> ShardedCache<T> {
    /// An empty cache with `shard_count` shards.
    pub fn new(shard_count: usize) -> (c: Self)
        ensures
            c@ == Map::<Seq<char>, T>::empty(),
            c.shard_count() == shard_count,
    {
        let mut shards: Vec<Vec<(String, T)>> = Vec::with_capacity(shard_count);
        let mut i: usize = 0;
        while i < shard_count
            invariant
                i <= shard_count,
                shards@.len() == i,
                forall|j: int| 0 <= j < i ==> (#[trigger] shards@[j])@.len() == 0,
            decreases shard_count - i,
        {
            shards.push(Vec::new());
            i = i + 1;
        }
        let c = ShardedCache { shards };
        assert(c@ =~= Map::<Seq<char>, T>::empty());
        c
    }

    /// The number of shards.
    pub fn num_shards(&self) -> (n: usize)
        ensures
            n == self.shard_count(),
    {
        self.shards.len()
    }

    /// The hash of `key`'s UTF-8 bytes.
    pub fn hash(key: &str) -> (h: usize)
        ensures
            h == spec_hash(key.spec_bytes()),
    {
        let bytes = key.as_bytes();
        let n = bytes.len();
        let mut h: usize = 0;
        let mut i: usize = 0;
        while i < n
            invariant
                n == bytes@.len(),
                bytes@ == key.spec_bytes(),
                i <= n,
                h == spec_hash(bytes@.take(i as int)),
            decreases n - i,
        {
            proof {
                let next = bytes@.take(i + 1);
                assert(next.drop_last() == bytes@.take(i as int));
                assert(next.last() == bytes@[i as int]);
            }
            h = h.wrapping_mul(31).wrapping_add(bytes[i] as usize);
            i = i + 1;
        }
        assert(bytes@.take(n as int) == bytes@);
        h
    }

    /// The shard that holds `key`.
    fn get_shard(&self, key: &str) -> (i: usize)
        requires
            self.shard_count() > 0,
        ensures
            i == shard_of(key@, self.shard_count()),
            i < self.shard_count(),
    {
        Self::hash(key) % self.shards.len()
    }
}

} // verus!
verus! {

impl<T: Clone> ShardedCache<T> {
    /// Stores `value` under `key`, replacing an earlier value.
    pub fn set(&mut self, key: &String, value: T)
        requires
            old(self).shard_count() > 0,
        ensures
            final(self)@ == old(self)@.insert(key@, value),
            final(self).shard_count() == old(self).shard_count(),
    {
        proof {
            use_type_invariant(&*self);
        }
        let ghost before = *self;
        let idx = self.get_shard(key.as_str());
        let mut shards: Vec<Vec<(String, T)>> = Vec::new();
        std::mem::swap(&mut shards, &mut self.shards);
        let ghost n = shards@.len();
        let mut shard: Vec<(String, T)> = Vec::new();
        std::mem::swap(&mut shard, &mut shards[idx]);
        let ghost old_shard = shard@;
        assoc_insert(&mut shard, key.clone(), value);
        proof {
            assert forall|j: int| 0 <= j < shard@.len() implies shard_of(
                #[trigger] shard@[j].0@,
                n as nat,
            ) == idx by {
                let k = shard@[j].0@;
                lemma_lookup_some(shard@, k);
                if k != key@ {
                    assert(assoc_map(shard@).contains_key(k));
                    lemma_lookup_some(old_shard, k);
                }
            }
        }
        std::mem::swap(&mut shard, &mut shards[idx]);
        self.shards = shards;
        proof {
            assert(self.shards@ == before.shards@.update(idx as int, self.shards@[idx as int]));
            assert(old_shard == before.shards@[idx as int]@);
            assert forall|k: Seq<char>| #[trigger] self.lookup(k) == (if k == key@ { Some(value) } else { before.lookup(k) }) by {
                if shard_of(k, n as nat) == idx as int {
                    let m1 = assoc_map(self.shards@[idx as int]@);
                    let m0 = assoc_map(old_shard);
                    assert(m1 == m0.insert(key@, value));
                    assert(m1.contains_key(k) == (assoc_lookup(self.shards@[idx as int]@, k) is Some));
                    assert(m0.contains_key(k) == (assoc_lookup(old_shard, k) is Some));
                    if k == key@ {
                        assert(m1[k] == value);
                    } else if m0.contains_key(k) {
                        assert(m1[k] == m0[k]);
                    }
                }
            }
            assert(self@ =~= before@.insert(key@, value));
        }
    }

    /// A copy of the value stored under `key`, if there is one.
    pub fn get(&self, key: &str) -> (r: Option<T>)
        requires
            self.shard_count() > 0,
        ensures
            r is Some <==> self@.contains_key(key@),
            r matches Some(v) ==> cloned(self@[key@], v),
    {
        proof {
            use_type_invariant(self);
        }
        let idx = self.get_shard(key);
        let k = key.to_owned();
        match assoc_get(&self.shards[idx], &k) {
            Some(v) => Some(v.clone()),
            None => None,
        }
    }

    /// Whether a value is stored under `key`.
    pub fn has(&self, key: &str) -> (b: bool)
        requires
            self.shard_count() > 0,
        ensures
            b == self@.contains_key(key@),
    {
        proof {
            use_type_invariant(self);
        }
        let idx = self.get_shard(key);
        let k = key.to_owned();
        assoc_get(&self.shards[idx], &k).is_some()
    }

    /// Removes the value stored under `key`, returning it if there was one.
    pub fn remove(&mut self, key: &str) -> (r: Option<T>)
        requires
            old(self).shard_count() > 0,
        ensures
            r == if old(self)@.contains_key(key@) {
                Some(old(self)@[key@])
            } else {
                None::<T>
            },
            final(self)@ == old(self)@.remove(key@),
            final(self).shard_count() == old(self).shard_count(),
    {
        proof {
            use_type_invariant(&*self);
        }
        let ghost before = *self;
        let idx = self.get_shard(key);
        let k = key.to_owned();
        let mut shards: Vec<Vec<(String, T)>> = Vec::new();
        std::mem::swap(&mut shards, &mut self.shards);
        let ghost n = shards@.len();
        let mut shard: Vec<(String, T)> = Vec::new();
        std::mem::swap(&mut shard, &mut shards[idx]);
        let ghost old_shard = shard@;
        let r = assoc_remove(&mut shard, &k);
        proof {
            assert forall|j: int| 0 <= j < shard@.len() implies shard_of(
                #[trigger] shard@[j].0@,
                n as nat,
            ) == idx by {
                let kj = shard@[j].0@;
                lemma_lookup_some(shard@, kj);
                assert(assoc_map(shard@).contains_key(kj));
                lemma_lookup_some(old_shard, kj);
            }
        }
        std::mem::swap(&mut shard, &mut shards[idx]);
        self.shards = shards;
        proof {
            assert(self.shards@ == before.shards@.update(idx as int, self.shards@[idx as int]));
            assert(old_shard == before.shards@[idx as int]@);
            assert forall|k2: Seq<char>| #[trigger] self.lookup(k2) == (if k2 == key@ { None } else { before.lookup(k2) }) by {
                if shard_of(k2, n as nat) == idx as int {
                    let m1 = assoc_map(self.shards@[idx as int]@);
                    let m0 = assoc_map(old_shard);
                    assert(m1 == m0.remove(key@));
                    assert(m1.contains_key(k2) == (assoc_lookup(self.shards@[idx as int]@, k2) is Some));
                    assert(m0.contains_key(k2) == (assoc_lookup(old_shard, k2) is Some));
                    if k2 != key@ && m0.contains_key(k2) {
                        assert(m1[k2] == m0[k2]);
                    }
                }
            }
            assert(self@ =~= before@.remove(key@));
        }
        r
    }

    /// Handles a message: inserts or removes (answering `None`), or answers a lookup.
    pub fn handle(&mut self, msg: CacheSet<T>) -> (r: Option<T>)
        requires
            old(self).shard_count() > 0,
        ensures
            final(self).shard_count() == old(self).shard_count(),
            final(self)@ == apply_msg(old(self)@, msg),
            match msg {
                CacheSet::Insert { key, value } => final(self)@ == old(self)@.insert(key@, value)
                    && r is None,
                CacheSet::Remove { key } => final(self)@ == old(self)@.remove(key@) && r is None,
                CacheSet::Get { key } => final(self)@ == old(self)@ && (r is Some
                    <==> old(self)@.contains_key(key@)) && (r matches Some(v) ==> cloned(
                    old(self)@[key@],
                    v,
                )),
            },
    {
        match msg {
            CacheSet::Insert { key, value } => {
                self.set(&key, value);
                None
            },
            CacheSet::Remove { key } => {
                self.remove(key.as_str());
                None
            },
            CacheSet::Get { key } => self.get(key.as_str()),
        }
    }
}

} // verus!
verus! {

/// After `set(key, value)`: a lookup of `key` finds `value`, and every other key finds what it
/// found before.
pub proof fn lemma_get_after_set<T>(
    before: ShardedCache<T>,
    after: ShardedCache<T>,
    key: Seq<char>,
    value: T,
    other: Seq<char>,
)
    requires
        after@ == before@.insert(key, value),
    ensures
        after@.contains_key(key),
        after@[key] == value,
        other != key ==> (after@.contains_key(other) == before@.contains_key(other)),
        other != key && before@.contains_key(other) ==> after@[other] == before@[other],
{
}

/// After `remove(key)`: nothing is found under `key`, and every other key finds what it found
/// before.
pub proof fn lemma_get_after_remove<T>(
    before: ShardedCache<T>,
    after: ShardedCache<T>,
    key: Seq<char>,
    other: Seq<char>,
)
    requires
        after@ == before@.remove(key),
    ensures
        !after@.contains_key(key),
        other != key ==> (after@.contains_key(other) == before@.contains_key(other)),
        other != key && before@.contains_key(other) ==> after@[other] == before@[other],
{
}

/// What a message does to the map that a cache stands for: an insert stores the value under
/// its key, a remove drops its key, a lookup changes nothing.
pub open spec fn apply_msg<T>(m: Map<Seq<char>, T>, msg: CacheSet<T>) -> Map<Seq<char>, T> {
    match msg {
        CacheSet::Insert { key, value } => m.insert(key@, value),
        CacheSet::Remove { key } => m.remove(key@),
        CacheSet::Get { .. } => m,
    }
}

/// The map after the messages `msgs`, in order.
pub open spec fn apply_msgs<T>(m: Map<Seq<char>, T>, msgs: Seq<CacheSet<T>>) -> Map<Seq<char>, T>
    decreases msgs.len(),
{
    if msgs.len() == 0 {
        m
    } else {
        apply_msg(apply_msgs(m, msgs.drop_last()), msgs.last())
    }
}

/// A cache behaves as a map: when `views` are a cache's views before and after each of the
/// messages `msgs` (as `handle` relates them), the cache after the first `i` messages stands for
/// the map that applying them to the first view gives, whatever the number of shards; a lookup
/// then finds exactly the keys of that map.
pub proof fn lemma_cache_is_a_map<T>(views: Seq<Map<Seq<char>, T>>, msgs: Seq<CacheSet<T>>)
    requires
        views.len() == msgs.len() + 1,
        forall|i: int| 0 <= i < msgs.len() ==> #[trigger] views[i + 1] == apply_msg(views[i], msgs[i]),
    ensures
        forall|i: int| 0 <= i <= msgs.len() ==> #[trigger] views[i] == apply_msgs(views[0], msgs.take(i)),
    decreases msgs.len(),
{
    if msgs.len() > 0 {
        let n = msgs.len() - 1;
        let vs = views.drop_last();
        let ms = msgs.drop_last();
        assert forall|i: int| 0 <= i < ms.len() implies #[trigger] vs[i + 1] == apply_msg(vs[i], ms[i]) by {
            assert(views[i + 1] == apply_msg(views[i], msgs[i]));
        }
        lemma_cache_is_a_map(vs, ms);
        assert forall|i: int| 0 <= i <= msgs.len() implies #[trigger] views[i] == apply_msgs(views[0], msgs.take(i)) by {
            if i <= n {
                assert(vs[i] == views[i]);
                assert(ms.take(i) =~= msgs.take(i));
            } else {
                assert(vs[n] == views[n]);
                assert(ms.take(n) =~= msgs.take(n));
                assert(msgs.take(i).drop_last() =~= msgs.take(n));
                assert(views[n + 1] == apply_msg(views[n], msgs[n]));
            }
        }
    }
}

} // verus!
