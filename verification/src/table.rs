//! Spec model of an insertion-ordered map kept as a sequence of
//! `(key, value)` pairs: a new key is appended, an existing key is updated in
//! place, and a removal moves the last pair into the freed slot. This is the
//! order in which the contracts list their pending requests and whitelist.

use vstd::prelude::*;

verus! {

/// `k` is the key of some pair in `s`.
pub open spec fn has_key<K, V>(s: Seq<(K, V)>, k: K) -> bool {
    exists|i: int| 0 <= i < s.len() && (#[trigger] s[i]).0 == k
}

/// No key occurs twice in `s`.
pub open spec fn unique_keys<K, V>(s: Seq<(K, V)>) -> bool {
    forall|i: int, j: int| 0 <= i < s.len() && 0 <= j < s.len() && i != j ==> (#[trigger] s[i]).0 != (#[trigger] s[j]).0
}

/// The position of key `k` in `s` (meaningful where `has_key(s, k)`).
pub open spec fn key_index<K, V>(s: Seq<(K, V)>, k: K) -> int {
    choose|i: int| 0 <= i < s.len() && (#[trigger] s[i]).0 == k
}

/// The value stored under `k`, if any.
pub open spec fn lookup<K, V>(s: Seq<(K, V)>, k: K) -> Option<V> {
    if has_key(s, k) {
        Some(s[key_index(s, k)].1)
    } else {
        None
    }
}

/// `s` with the pair of key `k` removed: the last pair takes its slot.
pub open spec fn remove_key<K, V>(s: Seq<(K, V)>, k: K) -> Seq<(K, V)> {
    if has_key(s, k) {
        let i = key_index(s, k);
        s.update(i, s.last()).drop_last()
    } else {
        s
    }
}

/// `s` with `v` stored under `k`: in place where `k` is present, appended
/// otherwise.
pub open spec fn put<K, V>(s: Seq<(K, V)>, k: K, v: V) -> Seq<(K, V)> {
    if has_key(s, k) {
        s.update(key_index(s, k), (k, v))
    } else {
        s.push((k, v))
    }
}

/// With unique keys, the pair found at `i` fixes the key's index.
pub proof fn lemma_index_unique<K, V>(s: Seq<(K, V)>, k: K, i: int)
    requires
        unique_keys(s),
        0 <= i < s.len(),
        s[i].0 == k,
    ensures
        has_key(s, k),
        key_index(s, k) == i,
        lookup(s, k) == Some(s[i].1),
{
    assert(has_key(s, k));
    let j = key_index(s, k);
    assert(s[j].0 == k);
}

/// Storing under a key keeps the keys unique and changes only that key.
pub proof fn lemma_put<K, V>(s: Seq<(K, V)>, k: K, v: V)
    requires
        unique_keys(s),
    ensures
        unique_keys(put(s, k, v)),
        has_key(put(s, k, v), k),
        lookup(put(s, k, v), k) == Some(v),
        forall|k2: K| k2 != k ==> #[trigger] lookup(put(s, k, v), k2) == lookup(s, k2),
        put(s, k, v).len() == if has_key(s, k) { s.len() } else { s.len() + 1 },
{
    let t = put(s, k, v);
    if has_key(s, k) {
        let i = key_index(s, k);
        assert(s[i].0 == k);
        assert(unique_keys(t)) by {
            assert forall|a: int, b: int| 0 <= a < t.len() && 0 <= b < t.len() && a != b implies (
            #[trigger] t[a]).0 != (#[trigger] t[b]).0 by {
                assert(s[a].0 != s[b].0);
            }
        }
        lemma_index_unique(t, k, i);
        assert forall|k2: K| k2 != k implies #[trigger] lookup(t, k2) == lookup(s, k2) by {
            if has_key(s, k2) {
                let j = key_index(s, k2);
                assert(s[j].0 == k2);
                assert(t[j] == s[j]);
                lemma_index_unique(t, k2, j);
                lemma_index_unique(s, k2, j);
            }
            if has_key(t, k2) {
                let j = key_index(t, k2);
                assert(t[j].0 == k2);
                assert(t[j] == s[j]);
                lemma_index_unique(s, k2, j);
            }
        }
    } else {
        let n = s.len() as int;
        assert(unique_keys(t)) by {
            assert forall|a: int, b: int| 0 <= a < t.len() && 0 <= b < t.len() && a != b implies (
            #[trigger] t[a]).0 != (#[trigger] t[b]).0 by {
                if a == n {
                    assert(s[b] == t[b]);
                } else if b == n {
                    assert(s[a] == t[a]);
                } else {
                    assert(s[a].0 != s[b].0);
                }
            }
        }
        lemma_index_unique(t, k, n);
        assert forall|k2: K| k2 != k implies #[trigger] lookup(t, k2) == lookup(s, k2) by {
            if has_key(s, k2) {
                let j = key_index(s, k2);
                assert(s[j].0 == k2);
                assert(t[j] == s[j]);
                lemma_index_unique(t, k2, j);
                lemma_index_unique(s, k2, j);
            }
            if has_key(t, k2) {
                let j = key_index(t, k2);
                assert(t[j].0 == k2);
                assert(j != n);
                assert(t[j] == s[j]);
                lemma_index_unique(s, k2, j);
            }
        }
    }
}

/// Removing a key keeps the keys unique and changes only that key.
pub proof fn lemma_remove<K, V>(s: Seq<(K, V)>, k: K)
    requires
        unique_keys(s),
    ensures
        unique_keys(remove_key(s, k)),
        !has_key(remove_key(s, k), k),
        forall|k2: K| k2 != k ==> #[trigger] lookup(remove_key(s, k), k2) == lookup(s, k2),
        remove_key(s, k).len() == if has_key(s, k) { s.len() - 1 } else { s.len() as int },
{
    let t = remove_key(s, k);
    if has_key(s, k) {
        let i = key_index(s, k);
        let n = s.len() - 1;
        assert(s[i].0 == k);
        // t[a] == s[a] for a != i, t[i] == s[n]
        assert forall|a: int| 0 <= a < t.len() implies #[trigger] t[a] == if a == i { s[n] } else { s[a] } by {}
        assert(unique_keys(t)) by {
            assert forall|a: int, b: int| 0 <= a < t.len() && 0 <= b < t.len() && a != b implies (
            #[trigger] t[a]).0 != (#[trigger] t[b]).0 by {
                let sa = if a == i { n } else { a };
                let sb = if b == i { n } else { b };
                assert(t[a] == s[sa]);
                assert(t[b] == s[sb]);
                assert(s[sa].0 != s[sb].0);
            }
        }
        assert(!has_key(t, k)) by {
            if has_key(t, k) {
                let j = key_index(t, k);
                let sj = if j == i { n } else { j };
                assert(t[j] == s[sj]);
                assert(s[sj].0 == k);
                assert(sj != i);
            }
        }
        assert forall|k2: K| k2 != k implies #[trigger] lookup(t, k2) == lookup(s, k2) by {
            if has_key(s, k2) {
                let j = key_index(s, k2);
                assert(s[j].0 == k2);
                assert(j != i);
                let tj = if j == n { i } else { j };
                assert(t[tj] == s[j]);
                lemma_index_unique(t, k2, tj);
                lemma_index_unique(s, k2, j);
            }
            if has_key(t, k2) {
                let j = key_index(t, k2);
                let sj = if j == i { n } else { j };
                assert(t[j] == s[sj]);
                lemma_index_unique(s, k2, sj);
            }
        }
    }
}

/// The page of `s` that skips `from_index` entries (default 0) and holds at
/// most `limit` entries (default `u32::MAX`).
pub open spec fn page<T>(s: Seq<T>, from_index: Option<u32>, limit: Option<u32>) -> Seq<T> {
    let from: int = match from_index {
        Some(f) => f as int,
        None => 0,
    };
    let limit: int = match limit {
        Some(l) => l as int,
        None => u32::MAX as int,
    };
    let start = if from < s.len() { from } else { s.len() as int };
    let end = if start + limit < s.len() { start + limit } else { s.len() as int };
    s.subrange(start, end)
}

} // verus!
