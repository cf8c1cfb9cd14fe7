use vstd::prelude::*;

use crate::account::AccountId;

verus! {

/// The key sequence of an association list: each entry projected to the
/// account name it is keyed by, paired with its value.
pub open spec fn keyed<V>(s: Seq<(AccountId, V)>) -> Seq<(Seq<char>, V)> {
    s.map_values(|p: (AccountId, V)| (p.0@, p.1))
}

/// True when no two entries share a key.
pub open spec fn unique_keys<V>(s: Seq<(Seq<char>, V)>) -> bool {
    forall|i: int, j: int| 0 <= i < j < s.len() ==> #[trigger] s[i].0 != #[trigger] s[j].0
}

/// The finite map an association list denotes (with unique keys, the
/// order of entries is irrelevant).
pub open spec fn map_of<V>(s: Seq<(Seq<char>, V)>) -> Map<Seq<char>, V>
    decreases s.len(),
{
    if s.len() == 0 {
        Map::empty()
    } else {
        map_of(s.drop_last()).insert(s.last().0, s.last().1)
    }
}

/// A key is in the map exactly when some entry carries it.
pub proof fn lemma_map_of_contains<V>(s: Seq<(Seq<char>, V)>, k: Seq<char>)
    ensures
        map_of(s).contains_key(k) <==> exists|i: int| 0 <= i < s.len() && #[trigger] s[i].0 == k,
    decreases s.len(),
{
    if s.len() > 0 {
        lemma_map_of_contains(s.drop_last(), k);
        if s.last().0 == k {
            assert(s[s.len() - 1].0 == k);
        } else if map_of(s).contains_key(k) {
            let i = choose|i: int| 0 <= i < s.drop_last().len() && #[trigger] s.drop_last()[i].0 == k;
            assert(s[i].0 == k);
        } else if exists|i: int| 0 <= i < s.len() && #[trigger] s[i].0 == k {
            let i = choose|i: int| 0 <= i < s.len() && #[trigger] s[i].0 == k;
            assert(s.drop_last()[i].0 == k);
        }
    }
}

/// With unique keys, the entry carrying a key gives the map's value at it.
pub proof fn lemma_map_of_index<V>(s: Seq<(Seq<char>, V)>, i: int)
    requires
        unique_keys(s),
        0 <= i < s.len(),
    ensures
        map_of(s).contains_key(s[i].0),
        map_of(s)[s[i].0] == s[i].1,
    decreases s.len(),
{
    if i < s.len() - 1 {
        assert(unique_keys(s.drop_last())) by {
            assert(forall|x: int, y: int|
                0 <= x < y < s.drop_last().len() ==> s.drop_last()[x] == s[x] && s.drop_last()[y]
                    == s[y]);
        }
        lemma_map_of_index(s.drop_last(), i);
        assert(s[i].0 != s[s.len() - 1].0);
    }
}

/// Overwriting the entry that carries a key updates the map at that key.
pub proof fn lemma_map_of_update<V>(s: Seq<(Seq<char>, V)>, i: int, v: V)
    requires
        unique_keys(s),
        0 <= i < s.len(),
    ensures
        map_of(s.update(i, (s[i].0, v))) == map_of(s).insert(s[i].0, v),
    decreases s.len(),
{
    let k = s[i].0;
    let t = s.update(i, (k, v));
    if i == s.len() - 1 {
        assert(t.drop_last() =~= s.drop_last());
        assert(map_of(t) =~= map_of(s).insert(k, v));
    } else {
        assert(unique_keys(s.drop_last())) by {
            assert(forall|x: int, y: int|
                0 <= x < y < s.drop_last().len() ==> s.drop_last()[x] == s[x] && s.drop_last()[y]
                    == s[y]);
        }
        assert(t.drop_last() =~= s.drop_last().update(i, (k, v)));
        lemma_map_of_update(s.drop_last(), i, v);
        assert(s[s.len() - 1].0 != k);
        assert(map_of(t) =~= map_of(s).insert(k, v));
    }
}

/// Appending an entry with a fresh key extends the map.
pub proof fn lemma_map_of_push<V>(s: Seq<(Seq<char>, V)>, k: Seq<char>, v: V)
    ensures
        map_of(s.push((k, v))) == map_of(s).insert(k, v),
{
    assert(s.push((k, v)).drop_last() =~= s);
}

/// Removing the entry that carries a key removes the key from the map.
pub proof fn lemma_map_of_remove<V>(s: Seq<(Seq<char>, V)>, i: int)
    requires
        unique_keys(s),
        0 <= i < s.len(),
    ensures
        map_of(s.remove(i)) == map_of(s).remove(s[i].0),
    decreases s.len(),
{
    let k = s[i].0;
    let t = s.remove(i);
    assert(unique_keys(s.drop_last())) by {
        assert(forall|x: int, y: int|
            0 <= x < y < s.drop_last().len() ==> s.drop_last()[x] == s[x] && s.drop_last()[y]
                == s[y]);
    }
    if i == s.len() - 1 {
        assert(t =~= s.drop_last());
        lemma_map_of_contains(s.drop_last(), k);
        assert(forall|j: int| 0 <= j < s.drop_last().len() ==> #[trigger] s.drop_last()[j].0 != k);
        assert(map_of(t) =~= map_of(s).remove(k));
    } else {
        assert(t.drop_last() =~= s.drop_last().remove(i));
        lemma_map_of_remove(s.drop_last(), i);
        assert(s[s.len() - 1].0 != k);
        assert(map_of(t) =~= map_of(s).remove(k));
    }
}

/// Looks up the value stored under a key, if any.
pub fn assoc_get<V: Copy>(entries: &Vec<(AccountId, V)>, key: &AccountId) -> (r: Option<V>)
    requires
        unique_keys(keyed(entries@)),
    ensures
        r == if map_of(keyed(entries@)).contains_key(key@) {
            Some(map_of(keyed(entries@))[key@])
        } else {
            None::<V>
        },
{
    proof {
        lemma_map_of_contains(keyed(entries@), key@);
    }
    match assoc_index_of(entries, key) {
        Some(i) => {
            proof {
                lemma_map_of_index(keyed(entries@), i as int);
            }
            Some(entries[i].1)
        },
        None => None,
    }
}

/// Stores a value under a key, overwriting any entry the key already has.
pub fn assoc_set<V: Copy>(entries: &mut Vec<(AccountId, V)>, key: &AccountId, value: V)
    requires
        unique_keys(keyed(old(entries)@)),
    ensures
        unique_keys(keyed(final(entries)@)),
        map_of(keyed(final(entries)@)) == map_of(keyed(old(entries)@)).insert(key@, value),
{
    proof {
        lemma_map_of_contains(keyed(entries@), key@);
    }
    match assoc_index_of(entries, key) {
        Some(i) => {
            proof {
                lemma_map_of_update(keyed(entries@), i as int, value);
            }
            let k = entries[i].0.clone();
            entries[i] = (k, value);
            proof {
                assert(keyed(entries@) =~= keyed(old(entries)@).update(i as int, (key@, value)));
            }
        },
        None => {
            proof {
                lemma_map_of_push(keyed(entries@), key@, value);
            }
            entries.push((key.clone(), value));
            proof {
                assert(keyed(entries@) =~= keyed(old(entries)@).push((key@, value)));
            }
        },
    }
}

/// Decides whether an association list carries one entry per key.
pub fn check_unique_keys<V>(entries: &Vec<(AccountId, V)>) -> (r: bool)
    ensures
        r == unique_keys(keyed(entries@)),
{
    let n = entries.len();
    let mut i: usize = 0;
    while i < n
        invariant
            i <= n,
            n == entries.len(),
            forall|x: int, y: int|
                0 <= x < y < i ==> #[trigger] keyed(entries@)[x].0 != #[trigger] keyed(
                    entries@,
                )[y].0,
        decreases n - i,
    {
        let mut j: usize = 0;
        while j < i
            invariant
                j <= i,
                i < n,
                n == entries.len(),
                forall|x: int, y: int|
                    0 <= x < y < i ==> #[trigger] keyed(entries@)[x].0 != #[trigger] keyed(
                        entries@,
                    )[y].0,
                forall|x: int|
                    0 <= x < j ==> #[trigger] keyed(entries@)[x].0 != keyed(entries@)[i as int].0,
            decreases i - j,
        {
            if entries[j].0 == entries[i].0 {
                proof {
                    assert(keyed(entries@)[j as int].0 == keyed(entries@)[i as int].0);
                }
                return false;
            }
            proof {
                assert(keyed(entries@)[j as int].0 != keyed(entries@)[i as int].0);
            }
            j += 1;
        }
        i += 1;
    }
    true
}

/// Looks up the position of the entry keyed by `key`, if any.
pub fn assoc_index_of<V>(entries: &Vec<(AccountId, V)>, key: &AccountId) -> (r: Option<usize>)
    ensures
        match r {
            Some(i) => i < entries.len() && keyed(entries@)[i as int].0 == key@,
            None => forall|i: int|
                0 <= i < entries@.len() ==> #[trigger] keyed(entries@)[i].0 != key@,
        },
{
    let mut i: usize = 0;
    while i < entries.len()
        invariant
            i <= entries.len(),
            forall|j: int| 0 <= j < i ==> #[trigger] keyed(entries@)[j].0 != key@,
        decreases entries.len() - i,
    {
        if entries[i].0 == *key {
            assert(keyed(entries@)[i as int].0 == key@);
            return Some(i);
        }
        assert(keyed(entries@)[i as int].0 != key@);
        i += 1;
    }
    None
}

} // verus!
