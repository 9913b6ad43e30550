use vstd::prelude::*;

verus! {

/// One slot of a table: a key and what is stored under it.
pub struct Entry<K, V> {
    pub key: K,
    pub value: V,
}

/// Whether some slot of `s` is stored under `k`.
pub open spec fn has_key<K, V>(s: Seq<Entry<K, V>>, k: K) -> bool {
    exists|i: int| 0 <= i < s.len() && (#[trigger] s[i]).key == k
}

/// A slot of `s` stored under `k`, where there is one.
pub open spec fn index_of<K, V>(s: Seq<Entry<K, V>>, k: K) -> int {
    choose|i: int| 0 <= i < s.len() && (#[trigger] s[i]).key == k
}

/// No two slots of `s` share a key.
pub open spec fn distinct_keys<K, V>(s: Seq<Entry<K, V>>) -> bool {
    forall|i: int, j: int|
        0 <= i < s.len() && 0 <= j < s.len() && i != j ==> (#[trigger] s[i]).key != (
        #[trigger] s[j]).key
}

/// The table as a map from each key to what is stored under it.
pub open spec fn as_map<K, V>(s: Seq<Entry<K, V>>) -> Map<K, V> {
    Map::new(|k: K| has_key(s, k), |k: K| s[index_of(s, k)].value)
}

/// A slot is found again under its own key.
pub proof fn lemma_slot<K, V>(s: Seq<Entry<K, V>>, i: int)
    requires
        distinct_keys(s),
        0 <= i < s.len(),
    ensures
        has_key(s, s[i].key),
        index_of(s, s[i].key) == i,
        as_map(s).contains_key(s[i].key),
        as_map(s)[s[i].key] == s[i].value,
{
    let k = s[i].key;
    assert(s[i].key == k);
    let j = index_of(s, k);
    assert(0 <= j < s.len() && s[j].key == k);
}

/// A key that no slot carries is not in the map.
pub proof fn lemma_absent<K, V>(s: Seq<Entry<K, V>>, k: K)
    requires
        forall|i: int| 0 <= i < s.len() ==> (#[trigger] s[i]).key != k,
    ensures
        !has_key(s, k),
        !as_map(s).contains_key(k),
{
}

/// Overwriting the value of slot `i` overwrites the map at that slot's key.
pub proof fn lemma_set<K, V>(s: Seq<Entry<K, V>>, i: int, v: V)
    requires
        distinct_keys(s),
        0 <= i < s.len(),
    ensures
        distinct_keys(s.update(i, Entry { key: s[i].key, value: v })),
        as_map(s.update(i, Entry { key: s[i].key, value: v })) == as_map(s).insert(s[i].key, v),
{
    let t = s.update(i, Entry { key: s[i].key, value: v });
    assert(forall|j: int| 0 <= j < s.len() ==> (#[trigger] t[j]).key == s[j].key);
    assert(distinct_keys(t));
    assert forall|k: K| has_key(t, k) == has_key(s, k) by {
        if has_key(s, k) {
            let j = index_of(s, k);
            assert(t[j].key == k);
        }
        if has_key(t, k) {
            let j = index_of(t, k);
            assert(s[j].key == k);
        }
    }
    assert forall|k: K| has_key(t, k) implies #[trigger] as_map(t)[k] == as_map(s).insert(
        s[i].key,
        v,
    )[k] by {
        let j = index_of(t, k);
        lemma_slot(t, j);
        lemma_slot(s, j);
    }
    assert(as_map(t) =~= as_map(s).insert(s[i].key, v)) by {
        lemma_slot(s, i);
    }
}

/// Appending a slot under a fresh key inserts it into the map.
pub proof fn lemma_push<K, V>(s: Seq<Entry<K, V>>, e: Entry<K, V>)
    requires
        distinct_keys(s),
        !has_key(s, e.key),
    ensures
        distinct_keys(s.push(e)),
        as_map(s.push(e)) == as_map(s).insert(e.key, e.value),
{
    let t = s.push(e);
    assert(forall|j: int| 0 <= j < s.len() ==> (#[trigger] t[j]) == s[j]);
    assert(t[s.len() as int] == e);
    assert forall|j: int| 0 <= j < s.len() implies (#[trigger] s[j]).key != e.key by {}
    assert(distinct_keys(t));
    assert forall|k: K| has_key(t, k) == (has_key(s, k) || k == e.key) by {
        if has_key(s, k) {
            let j = index_of(s, k);
            assert(t[j].key == k);
        }
        if k == e.key {
            assert(t[s.len() as int].key == k);
        }
        if has_key(t, k) {
            let j = index_of(t, k);
            if j < s.len() {
                assert(s[j].key == k);
            }
        }
    }
    assert forall|k: K| has_key(t, k) implies #[trigger] as_map(t)[k] == as_map(s).insert(
        e.key,
        e.value,
    )[k] by {
        let j = index_of(t, k);
        lemma_slot(t, j);
        if j < s.len() {
            lemma_slot(s, j);
        }
    }
    assert(as_map(t) =~= as_map(s).insert(e.key, e.value));
}

/// Taking slot `i` out removes its key from the map.
pub proof fn lemma_remove<K, V>(s: Seq<Entry<K, V>>, i: int)
    requires
        distinct_keys(s),
        0 <= i < s.len(),
    ensures
        distinct_keys(s.remove(i)),
        as_map(s.remove(i)) == as_map(s).remove(s[i].key),
{
    let t = s.remove(i);
    assert(forall|j: int| 0 <= j < i ==> (#[trigger] t[j]) == s[j]);
    assert(forall|j: int| i <= j < t.len() ==> (#[trigger] t[j]) == s[j + 1]);
    assert(distinct_keys(t)) by {
        assert forall|a: int, b: int|
            0 <= a < t.len() && 0 <= b < t.len() && a != b implies (#[trigger] t[a]).key != (
        #[trigger] t[b]).key by {
            let a0 = if a < i { a } else { a + 1 };
            let b0 = if b < i { b } else { b + 1 };
            assert(t[a] == s[a0] && t[b] == s[b0]);
        }
    }
    assert forall|k: K| has_key(t, k) == (has_key(s, k) && k != s[i].key) by {
        if has_key(s, k) && k != s[i].key {
            let j = index_of(s, k);
            if j < i {
                assert(t[j].key == k);
            } else {
                assert(t[j - 1].key == k);
            }
        }
        if has_key(t, k) {
            let j = index_of(t, k);
            let j0 = if j < i { j } else { j + 1 };
            assert(s[j0].key == k);
        }
    }
    assert forall|k: K| has_key(t, k) implies #[trigger] as_map(t)[k] == as_map(s).remove(
        s[i].key,
    )[k] by {
        let j = index_of(t, k);
        let j0 = if j < i { j } else { j + 1 };
        lemma_slot(t, j);
        lemma_slot(s, j0);
    }
    assert(as_map(t) =~= as_map(s).remove(s[i].key));
}

} // verus!
