//! Sequences of entries read as maps: each entry is a key with its
//! value, and no key occurs twice.

use vstd::prelude::*;

verus! {

/// No two entries have the same key.
pub open spec fn distinct_keys<K, V>(entries: Seq<(K, V)>) -> bool {
    forall|i: int, j: int|
        0 <= i < j < entries.len() ==> (#[trigger] entries[i]).0 != (#[trigger] entries[j]).0
}

/// One of the entries has the key `key`.
pub open spec fn has_key<K, V>(entries: Seq<(K, V)>, key: K) -> bool {
    exists|i: int| 0 <= i < entries.len() && (#[trigger] entries[i]).0 == key
}

/// The map that takes the key of each entry to its value; of two entries
/// with one key, the later counts.
pub open spec fn as_map<K, V>(entries: Seq<(K, V)>) -> Map<K, V>
    decreases entries.len(),
{
    if entries.len() == 0 {
        Map::empty()
    } else {
        as_map(entries.drop_last()).insert(entries.last().0, entries.last().1)
    }
}

/// The map of entries holds the keys of the entries and no other, and
/// where no key occurs twice, it takes the key of each entry to the value
/// of that entry.
pub proof fn lemma_as_map<K, V>(entries: Seq<(K, V)>)
    ensures
        forall|key: K| #[trigger] as_map(entries).contains_key(key) <==> has_key(entries, key),
        distinct_keys(entries) ==> forall|i: int|
            0 <= i < entries.len() ==> as_map(entries)[(#[trigger] entries[i]).0] == entries[i].1,
    decreases entries.len(),
{
    if entries.len() > 0 {
        let init = entries.drop_last();
        let last = entries.last();
        lemma_as_map(init);
        assert forall|key: K| #[trigger] as_map(entries).contains_key(key) <==> has_key(
            entries,
            key,
        ) by {
            if has_key(entries, key) {
                let i = choose|i: int| 0 <= i < entries.len() && (#[trigger] entries[i]).0 == key;
                if i < init.len() {
                    assert(init[i].0 == key);
                    assert(has_key(init, key));
                    assert(as_map(init).contains_key(key));
                }
            }
            if as_map(entries).contains_key(key) {
                if key == last.0 {
                    assert(entries[entries.len() - 1].0 == key);
                } else {
                    assert(as_map(init).contains_key(key));
                    assert(has_key(init, key));
                    let i = choose|i: int| 0 <= i < init.len() && (#[trigger] init[i]).0 == key;
                    assert(entries[i].0 == key);
                }
            }
        }
        if distinct_keys(entries) {
            assert(distinct_keys(init)) by {
                assert forall|i: int, j: int| 0 <= i < j < init.len() implies (
                #[trigger] init[i]).0 != (#[trigger] init[j]).0 by {
                    assert(init[i] == entries[i]);
                    assert(init[j] == entries[j]);
                }
            }
            assert forall|i: int| 0 <= i < entries.len() implies as_map(entries)[(
            #[trigger] entries[i]).0] == entries[i].1 by {
                if i < init.len() {
                    assert(init[i] == entries[i]);
                    assert(entries[i].0 != entries[entries.len() - 1].0);
                }
            }
        }
    }
}

/// An entry with a new key, put behind the others, is inserted in the
/// map.
pub proof fn lemma_push<K, V>(entries: Seq<(K, V)>, key: K, value: V)
    requires
        distinct_keys(entries),
        !has_key(entries, key),
    ensures
        distinct_keys(entries.push((key, value))),
        as_map(entries.push((key, value))) == as_map(entries).insert(key, value),
{
    let pushed = entries.push((key, value));
    assert(pushed.drop_last() =~= entries);
    assert forall|i: int, j: int| 0 <= i < j < pushed.len() implies (#[trigger] pushed[i]).0 != (
    #[trigger] pushed[j]).0 by {
        assert(pushed[i] == entries[i]);
        if j < entries.len() {
            assert(pushed[j] == entries[j]);
        }
    }
}

/// A new value for the key of the entry at index `i` is inserted in the
/// map.
pub proof fn lemma_update<K, V>(entries: Seq<(K, V)>, i: int, value: V)
    requires
        distinct_keys(entries),
        0 <= i < entries.len(),
    ensures
        distinct_keys(entries.update(i, (entries[i].0, value))),
        as_map(entries.update(i, (entries[i].0, value))) == as_map(entries).insert(
            entries[i].0,
            value,
        ),
{
    let key = entries[i].0;
    let updated = entries.update(i, (key, value));
    assert forall|a: int, b: int| 0 <= a < b < updated.len() implies (#[trigger] updated[a]).0 != (
    #[trigger] updated[b]).0 by {
        assert(updated[a].0 == entries[a].0);
        assert(updated[b].0 == entries[b].0);
    }
    lemma_as_map(entries);
    lemma_as_map(updated);
    let left = as_map(updated);
    let right = as_map(entries).insert(key, value);
    assert forall|k: K| left.contains_key(k) <==> right.contains_key(k) by {
        if has_key(updated, k) {
            let a = choose|a: int| 0 <= a < updated.len() && (#[trigger] updated[a]).0 == k;
            assert(entries[a].0 == k);
        }
        if has_key(entries, k) {
            let a = choose|a: int| 0 <= a < entries.len() && (#[trigger] entries[a]).0 == k;
            assert(updated[a].0 == k);
        }
        if k == key {
            assert(updated[i].0 == k);
        }
    }
    assert forall|k: K| left.contains_key(k) implies left[k] == right[k] by {
        let a = choose|a: int| 0 <= a < updated.len() && (#[trigger] updated[a]).0 == k;
        assert(left[updated[a].0] == updated[a].1);
        if a != i {
            assert(entries[a].0 == k);
            assert(as_map(entries)[entries[a].0] == entries[a].1);
            if a < i {
                assert(entries[a].0 != entries[i].0);
            } else {
                assert(entries[i].0 != entries[a].0);
            }
        }
    }
    assert(left =~= right);
}

/// Taking the entry at index `i` out removes its key from the map.
pub proof fn lemma_remove<K, V>(entries: Seq<(K, V)>, i: int)
    requires
        distinct_keys(entries),
        0 <= i < entries.len(),
    ensures
        distinct_keys(entries.remove(i)),
        as_map(entries.remove(i)) == as_map(entries).remove(entries[i].0),
{
    let key = entries[i].0;
    let removed = entries.remove(i);
    assert forall|a: int| 0 <= a < removed.len() implies #[trigger] removed[a] == (if a < i {
        entries[a]
    } else {
        entries[a + 1]
    }) by {}
    assert forall|a: int, b: int| 0 <= a < b < removed.len() implies (#[trigger] removed[a]).0 != (
    #[trigger] removed[b]).0 by {
        let x = if a < i {
            a
        } else {
            a + 1
        };
        let y = if b < i {
            b
        } else {
            b + 1
        };
        assert(removed[a] == entries[x]);
        assert(removed[b] == entries[y]);
    }
    lemma_as_map(entries);
    lemma_as_map(removed);
    let left = as_map(removed);
    let right = as_map(entries).remove(key);
    assert forall|k: K| left.contains_key(k) <==> right.contains_key(k) by {
        if has_key(removed, k) {
            let a = choose|a: int| 0 <= a < removed.len() && (#[trigger] removed[a]).0 == k;
            let x = if a < i {
                a
            } else {
                a + 1
            };
            assert(removed[a] == entries[x]);
            assert(entries[x].0 == k);
            if x < i {
                assert(entries[x].0 != entries[i].0);
            } else {
                assert(entries[i].0 != entries[x].0);
            }
        }
        if k != key && has_key(entries, k) {
            let x = choose|x: int| 0 <= x < entries.len() && (#[trigger] entries[x]).0 == k;
            let a = if x < i {
                x
            } else {
                x - 1
            };
            assert(removed[a] == entries[x]);
            assert(removed[a].0 == k);
        }
    }
    assert forall|k: K| left.contains_key(k) implies left[k] == right[k] by {
        let a = choose|a: int| 0 <= a < removed.len() && (#[trigger] removed[a]).0 == k;
        let x = if a < i {
            a
        } else {
            a + 1
        };
        assert(removed[a] == entries[x]);
        assert(left[removed[a].0] == removed[a].1);
        assert(as_map(entries)[entries[x].0] == entries[x].1);
    }
    assert(left =~= right);
}

} // verus!
