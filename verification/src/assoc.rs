//! Association lists keyed by strings: a `Vec` of `(key, value)` pairs in
//! which no key occurs twice, viewed as a finite map.
use vstd::prelude::*;

verus! {

/// The value stored under `k`, searching from the front.
pub open spec fn assoc_lookup<V>(entries: Seq<(String, V)>, k: Seq<char>) -> Option<V>
    decreases entries.len(),
{
    if entries.len() == 0 {
        None
    } else if entries[0].0@ == k {
        Some(entries[0].1)
    } else {
        assoc_lookup(entries.drop_first(), k)
    }
}

/// No key occurs twice.
pub open spec fn keys_distinct<V>(entries: Seq<(String, V)>) -> bool {
    forall|i: int, j: int|
        0 <= i < entries.len() && 0 <= j < entries.len() && i != j
            ==> entries[i].0@ != entries[j].0@
}

/// The map that an association list stands for.
pub open spec fn assoc_map<V>(entries: Seq<(String, V)>) -> Map<Seq<char>, V> {
    Map::new(|k: Seq<char>| assoc_lookup(entries, k) is Some, |k: Seq<char>| assoc_lookup(entries, k)->0)
}

pub proof fn lemma_lookup_some<V>(entries: Seq<(String, V)>, k: Seq<char>)
    ensures
        assoc_lookup(entries, k) is Some <==> exists|i: int| 0 <= i < entries.len() && entries[i].0@ == k,
    decreases entries.len(),
{
    if entries.len() > 0 {
        lemma_lookup_some(entries.drop_first(), k);
        if entries[0].0@ != k {
            if exists|i: int| 0 <= i < entries.len() && entries[i].0@ == k {
                let i = choose|i: int| 0 <= i < entries.len() && entries[i].0@ == k;
                assert(entries.drop_first()[i - 1].0@ == k);
            }
            if exists|i: int| 0 <= i < entries.len() - 1 && entries.drop_first()[i].0@ == k {
                let i = choose|i: int| 0 <= i < entries.len() - 1 && entries.drop_first()[i].0@ == k;
                assert(entries[i + 1].0@ == k);
            }
        }
    }
}

/// With distinct keys, the entry at `i` is what a lookup of its key finds.
pub proof fn lemma_lookup_at<V>(entries: Seq<(String, V)>, i: int)
    requires
        keys_distinct(entries),
        0 <= i < entries.len(),
    ensures
        assoc_lookup(entries, entries[i].0@) == Some(entries[i].1),
    decreases entries.len(),
{
    if i > 0 {
        assert(entries[0].0@ != entries[i].0@);
        let rest = entries.drop_first();
        assert(rest[i - 1] == entries[i]);
        lemma_lookup_at(rest, i - 1);
    }
}

/// Appending an entry with a fresh key.
pub proof fn lemma_lookup_push<V>(entries: Seq<(String, V)>, key: String, v: V, k: Seq<char>)
    ensures
        assoc_lookup(entries.push((key, v)), k) == if assoc_lookup(entries, k) is Some {
            assoc_lookup(entries, k)
        } else if key@ == k {
            Some(v)
        } else {
            None
        },
    decreases entries.len(),
{
    let pushed = entries.push((key, v));
    if entries.len() == 0 {
        assert(pushed.drop_first() =~= Seq::<(String, V)>::empty());
        assert(assoc_lookup(Seq::<(String, V)>::empty(), k) is None);
        assert(pushed[0] == (key, v));
    } else {
        assert(pushed.drop_first() =~= entries.drop_first().push((key, v)));
        assert(pushed[0] == entries[0]);
        lemma_lookup_push(entries.drop_first(), key, v, k);
    }
}

/// Replacing the value of the entry at `i`, keeping its key.
pub proof fn lemma_lookup_update<V>(entries: Seq<(String, V)>, i: int, key: String, v: V, k: Seq<char>)
    requires
        keys_distinct(entries),
        0 <= i < entries.len(),
        key@ == entries[i].0@,
    ensures
        keys_distinct(entries.update(i, (key, v))),
        assoc_lookup(entries.update(i, (key, v)), k) == if k == entries[i].0@ {
            Some(v)
        } else {
            assoc_lookup(entries, k)
        },
    decreases entries.len(),
{
    let upd = entries.update(i, (key, v));
    if i == 0 {
        assert(upd.drop_first() =~= entries.drop_first());
    } else {
        assert(upd.drop_first() =~= entries.drop_first().update(i - 1, (key, v)));
        assert(entries[0].0@ != entries[i].0@);
        lemma_lookup_update(entries.drop_first(), i - 1, key, v, k);
    }
}

/// Removing the entry at `i`.
pub proof fn lemma_lookup_remove<V>(entries: Seq<(String, V)>, i: int, k: Seq<char>)
    requires
        keys_distinct(entries),
        0 <= i < entries.len(),
    ensures
        assoc_lookup(entries.remove(i), k) == if k == entries[i].0@ {
            None
        } else {
            assoc_lookup(entries, k)
        },
    decreases entries.len(),
{
    let rem = entries.remove(i);
    if i == 0 {
        assert(rem =~= entries.drop_first());
        if k == entries[0].0@ {
            lemma_lookup_some(rem, k);
            if exists|j: int| 0 <= j < rem.len() && rem[j].0@ == k {
                let j = choose|j: int| 0 <= j < rem.len() && rem[j].0@ == k;
                assert(entries[j + 1].0@ == k);
            }
        }
    } else {
        assert(rem.drop_first() =~= entries.drop_first().remove(i - 1));
        assert(entries[0].0@ != entries[i].0@);
        lemma_lookup_remove(entries.drop_first(), i - 1, k);
    }
}

/// The position of the entry whose key is `key`, if there is one.
pub fn find_key<V>(entries: &Vec<(String, V)>, key: &String) -> (r: Option<usize>)
    ensures
        match r {
            Some(i) => i < entries@.len() && entries@[i as int].0@ == key@,
            None => forall|i: int| 0 <= i < entries@.len() ==> entries@[i].0@ != key@,
        },
{
    let n = entries.len();
    let mut i: usize = 0;
    while i < n
        invariant
            n == entries@.len(),
            i <= n,
            forall|j: int| 0 <= j < i ==> entries@[j].0@ != key@,
        decreases n - i,
    {
        if entries[i].0 == *key {
            return Some(i);
        }
        i = i + 1;
    }
    None
}

/// Sets the value under `key`, replacing an existing entry or appending a new one.
pub fn assoc_insert<V>(entries: &mut Vec<(String, V)>, key: String, value: V)
    requires
        keys_distinct(old(entries)@),
    ensures
        keys_distinct(final(entries)@),
        assoc_map(final(entries)@) == assoc_map(old(entries)@).insert(key@, value),
{
    let ghost before = entries@;
    match find_key(entries, &key) {
        Some(i) => {
            let ghost k0 = key;
            entries.set(i, (key, value));
            proof {
                assert(entries@ == before.update(i as int, (k0, value)));
                lemma_lookup_update(before, i as int, k0, value, k0@);
                assert forall|k: Seq<char>| #[trigger] assoc_lookup(entries@, k) == (if k == k0@ { Some(value) } else { assoc_lookup(before, k) }) by {
                    lemma_lookup_update(before, i as int, k0, value, k);
                }
            }
        },
        None => {
            let ghost k0 = key@;
            entries.push((key, value));
            proof {
                assert forall|k: Seq<char>| #[trigger] assoc_lookup(entries@, k) == (if k == k0 { Some(value) } else { assoc_lookup(before, k) }) by {
                    lemma_lookup_push(before, entries@.last().0, value, k);
                    lemma_lookup_some(before, k);
                }
            }
        },
    }
    assert(assoc_map(entries@) =~= assoc_map(before).insert(key@, value));
}

/// Removes the entry under `key`, returning its value if there was one.
pub fn assoc_remove<V>(entries: &mut Vec<(String, V)>, key: &String) -> (r: Option<V>)
    requires
        keys_distinct(old(entries)@),
    ensures
        keys_distinct(final(entries)@),
        r == assoc_lookup(old(entries)@, key@),
        assoc_map(final(entries)@) == assoc_map(old(entries)@).remove(key@),
{
    let ghost before = entries@;
    match find_key(entries, key) {
        Some(i) => {
            proof {
                lemma_lookup_at(before, i as int);
            }
            let (_, v) = entries.remove(i);
            proof {
                assert forall|k: Seq<char>| #[trigger] assoc_lookup(entries@, k) == (if k == key@ { None } else { assoc_lookup(before, k) }) by {
                    lemma_lookup_remove(before, i as int, k);
                }
                assert(assoc_map(entries@) =~= assoc_map(before).remove(key@));
            }
            Some(v)
        },
        None => {
            proof {
                lemma_lookup_some(before, key@);
                assert(assoc_map(entries@) =~= assoc_map(before).remove(key@));
            }
            None
        },
    }
}

/// The value under `key`, if any (a reference into the list).
pub fn assoc_get<'a, V>(entries: &'a Vec<(String, V)>, key: &String) -> (r: Option<&'a V>)
    requires
        keys_distinct(entries@),
    ensures
        match r {
            Some(v) => assoc_lookup(entries@, key@) == Some(*v),
            None => assoc_lookup(entries@, key@) is None,
        },
{
    match find_key(entries, key) {
        Some(i) => {
            proof {
                lemma_lookup_at(entries@, i as int);
            }
            Some(&entries[i].1)
        },
        None => {
            proof {
                lemma_lookup_some(entries@, key@);
            }
            None
        },
    }
}

} // verus!
verus! {

/// With distinct keys, the map has one key per entry.
pub proof fn lemma_assoc_map_len<V>(entries: Seq<(String, V)>)
    requires
        keys_distinct(entries),
    ensures
        assoc_map(entries).dom().finite(),
        assoc_map(entries).len() == entries.len(),
    decreases entries.len(),
{
    if entries.len() == 0 {
        assert(assoc_map(entries).dom() =~= Set::<Seq<char>>::empty());
    } else {
        let last = entries.len() - 1;
        let init = entries.drop_last();
        assert(keys_distinct(init));
        lemma_assoc_map_len(init);
        assert(entries == init.push(entries[last]));
        lemma_lookup_some(init, entries[last].0@);
        assert forall|k: Seq<char>| #[trigger] assoc_map(entries).dom().contains(k) == assoc_map(init).dom().insert(entries[last].0@).contains(k) by {
            lemma_lookup_push(init, entries[last].0, entries[last].1, k);
        }
        assert(assoc_map(entries).dom() =~= assoc_map(init).dom().insert(entries[last].0@));
        assert(!assoc_map(init).dom().contains(entries[last].0@));
    }
}

} // verus!
