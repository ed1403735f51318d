use vstd::prelude::*;

verus! {

/// Position of the first entry whose key is `key`, or -1.
pub open spec fn key_index<K, V>(s: Seq<(K, V)>, key: K) -> int
    decreases s.len(),
{
    if s.len() == 0 {
        -1
    } else if s[0].0 == key {
        0
    } else {
        let r = key_index(s.subrange(1, s.len() as int), key);
        if r < 0 { -1 } else { r + 1 }
    }
}

pub proof fn lemma_key_index<K, V>(s: Seq<(K, V)>, key: K)
    ensures
        -1 <= key_index(s, key) < s.len(),
        key_index(s, key) >= 0 ==> s[key_index(s, key)].0 == key,
        forall|j: int| 0 <= j < s.len() && (key_index(s, key) < 0 || j < key_index(s, key))
            ==> s[j].0 != key,
    decreases s.len(),
{
    if s.len() > 0 && s[0].0 != key {
        let t = s.subrange(1, s.len() as int);
        lemma_key_index(t, key);
        assert forall|j: int| 0 <= j < s.len() && (key_index(s, key) < 0 || j < key_index(s, key))
            implies s[j].0 != key by {
            if j > 0 {
                assert(s[j] == t[j - 1]);
            }
        }
    }
}

/// The index found for `key` is the one position before which no entry has it.
pub proof fn lemma_key_index_is<K, V>(s: Seq<(K, V)>, key: K, i: int)
    requires
        0 <= i < s.len(),
        s[i].0 == key,
        forall|j: int| 0 <= j < i ==> s[j].0 != key,
    ensures
        key_index(s, key) == i,
{
    lemma_key_index(s, key);
}

/// What `key` holds, if anything (the first entry with that key).
pub open spec fn value_of<K, V>(s: Seq<(K, V)>, key: K) -> Option<V> {
    let i = key_index(s, key);
    if i >= 0 { Some(s[i].1) } else { None }
}

/// Sets the first entry with the key of `e` to `e`, or appends `e`.
pub open spec fn keyed_insert<K, V>(s: Seq<(K, V)>, e: (K, V)) -> Seq<(K, V)> {
    let i = key_index(s, e.0);
    if i >= 0 { s.update(i, e) } else { s.push(e) }
}

/// `s` with each entry of `t` inserted in turn.
pub open spec fn keyed_merge<K, V>(s: Seq<(K, V)>, t: Seq<(K, V)>) -> Seq<(K, V)>
    decreases t.len(),
{
    if t.len() == 0 {
        s
    } else {
        keyed_insert(keyed_merge(s, t.drop_last()), t.last())
    }
}

/// After a keyed insert the key holds the new value.
pub proof fn lemma_keyed_insert_value<K, V>(s: Seq<(K, V)>, e: (K, V))
    ensures
        value_of(keyed_insert(s, e), e.0) == Some(e.1),
{
    lemma_key_index(s, e.0);
    let r = keyed_insert(s, e);
    let i = if key_index(s, e.0) >= 0 { key_index(s, e.0) } else { s.len() as int };
    assert forall|j: int| 0 <= j < i implies r[j].0 != e.0 by {
        assert(r[j] == s[j]);
    }
    lemma_key_index_is(r, e.0, i);
}

/// Changing the value of an entry keeps what every other key holds.
pub proof fn lemma_update_keeps_keys<K, V>(s: Seq<(K, V)>, i: int, e: (K, V))
    requires
        0 <= i < s.len(),
        s[i].0 == e.0,
    ensures
        forall|k: K| #[trigger] key_index(s.update(i, e), k) == key_index(s, k),
        forall|k: K| k != e.0 ==> #[trigger] value_of(s.update(i, e), k) == value_of(s, k),
{
    assert forall|k: K| #[trigger] key_index(s.update(i, e), k) == key_index(s, k) by {
        let t = s.update(i, e);
        lemma_key_index(s, k);
        lemma_key_index(t, k);
        let a = key_index(s, k);
        let b = key_index(t, k);
        assert forall|j: int| 0 <= j < s.len() implies (t[j].0 == k <==> s[j].0 == k) by {}
        if a >= 0 { assert(t[a].0 == k); }
        if b >= 0 { assert(s[b].0 == k); }
    }
    assert forall|k: K| k != e.0 implies #[trigger] value_of(s.update(i, e), k) == value_of(s, k) by {
        lemma_key_index(s, k);
        assert(key_index(s.update(i, e), k) == key_index(s, k));
    }
}

/// Appending an entry keeps what every other key holds.
pub proof fn lemma_push_keeps_keys<K, V>(s: Seq<(K, V)>, e: (K, V))
    ensures
        forall|k: K| k != e.0 ==> #[trigger] key_index(s.push(e), k) == key_index(s, k),
        forall|k: K| k != e.0 ==> #[trigger] value_of(s.push(e), k) == value_of(s, k),
{
    assert forall|k: K| k != e.0 implies #[trigger] key_index(s.push(e), k) == key_index(s, k) by {
        let t = s.push(e);
        lemma_key_index(s, k);
        lemma_key_index(t, k);
        let a = key_index(s, k);
        let b = key_index(t, k);
        if a >= 0 { assert(t[a].0 == k); }
        if b >= 0 { assert(b < s.len()); assert(s[b].0 == k); }
    }
    assert forall|k: K| k != e.0 implies #[trigger] value_of(s.push(e), k) == value_of(s, k) by {
        lemma_key_index(s, k);
        assert(key_index(s.push(e), k) == key_index(s, k));
    }
}

/// No two entries have the same key.
pub open spec fn unique_keys<K, V>(s: Seq<(K, V)>) -> bool {
    forall|i: int, j: int| 0 <= i < s.len() && 0 <= j < s.len() && #[trigger] s[i].0 == #[trigger] s[j].0 ==> i == j
}

/// A key that no entry holds has no index.
pub proof fn lemma_absent_key<K, V>(s: Seq<(K, V)>, k: K)
    requires
        key_index(s, k) < 0,
    ensures
        forall|j: int| 0 <= j < s.len() ==> #[trigger] s[j].0 != k,
{
    lemma_key_index(s, k);
}

/// Keys stay unique when an entry keeps its key, or when a new key is
/// appended, or when an entry goes.
pub proof fn lemma_unique_keys_kept<K, V>(s: Seq<(K, V)>, i: int, e: (K, V))
    requires
        unique_keys(s),
    ensures
        0 <= i < s.len() && s[i].0 == e.0 ==> unique_keys(s.update(i, e)),
        key_index(s, e.0) < 0 ==> unique_keys(s.push(e)),
        0 <= i < s.len() ==> unique_keys(s.remove(i)),
{
    if key_index(s, e.0) < 0 {
        lemma_absent_key(s, e.0);
        let t = s.push(e);
        assert forall|a: int, b: int| 0 <= a < t.len() && 0 <= b < t.len() && #[trigger] t[a].0 == #[trigger] t[b].0 implies a == b by {
            if a < s.len() && b < s.len() {
                assert(s[a].0 == s[b].0);
            }
        }
    }
    if 0 <= i < s.len() && s[i].0 == e.0 {
        let t = s.update(i, e);
        assert forall|a: int, b: int| 0 <= a < t.len() && 0 <= b < t.len() && #[trigger] t[a].0 == #[trigger] t[b].0 implies a == b by {
            assert(t[a].0 == s[a].0);
            assert(t[b].0 == s[b].0);
        }
    }
    if 0 <= i < s.len() {
        let t = s.remove(i);
        assert forall|a: int, b: int| 0 <= a < t.len() && 0 <= b < t.len() && #[trigger] t[a].0 == #[trigger] t[b].0 implies a == b by {
            let a2 = if a < i { a } else { a + 1 };
            let b2 = if b < i { b } else { b + 1 };
            assert(t[a] == s[a2]);
            assert(t[b] == s[b2]);
        }
    }
}

/// Once the entry with a unique key goes, no entry holds that key.
pub proof fn lemma_removed_key_absent<K, V>(s: Seq<(K, V)>, k: K)
    requires
        unique_keys(s),
        key_index(s, k) >= 0,
    ensures
        key_index(s.remove(key_index(s, k)), k) < 0,
        forall|j: int| 0 <= j < s.len() - 1 ==> #[trigger] s.remove(key_index(s, k))[j].0 != k,
{
    lemma_key_index(s, k);
    let i = key_index(s, k);
    let t = s.remove(i);
    assert forall|j: int| 0 <= j < t.len() implies #[trigger] t[j].0 != k by {
        let j2 = if j < i { j } else { j + 1 };
        assert(t[j] == s[j2]);
        assert(s[i].0 == k);
    }
    lemma_key_index(t, k);
    if key_index(t, k) >= 0 {
        assert(t[key_index(t, k)].0 == k);
    }
}

/// With unique keys, taking out the entry of one key keeps what every other
/// key holds.
pub proof fn lemma_remove_keeps_keys<K, V>(s: Seq<(K, V)>, k0: K)
    requires
        unique_keys(s),
        key_index(s, k0) >= 0,
    ensures
        forall|k: K| k != k0 ==> #[trigger] value_of(s.remove(key_index(s, k0)), k) == value_of(s, k),
{
    lemma_key_index(s, k0);
    let i = key_index(s, k0);
    let t = s.remove(i);
    assert forall|k: K| k != k0 implies #[trigger] value_of(t, k) == value_of(s, k) by {
        lemma_key_index(s, k);
        lemma_key_index(t, k);
        let a = key_index(s, k);
        if a >= 0 {
            assert(a != i);
            let b = if a < i { a } else { a - 1 };
            assert(t[b] == s[a]);
            assert forall|j: int| 0 <= j < b implies t[j].0 != k by {
                let j2 = if j < i { j } else { j + 1 };
                assert(t[j] == s[j2]);
            }
            lemma_key_index_is(t, k, b);
        } else {
            let c = key_index(t, k);
            if c >= 0 {
                let c2 = if c < i { c } else { c + 1 };
                assert(t[c] == s[c2]);
            }
        }
    }
}

} // verus!
