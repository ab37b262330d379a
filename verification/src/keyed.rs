//! Vectors of records keyed by a string, seen as maps.
//!
//! The engine and the stores keep records in vectors whose keys never repeat;
//! `keyed_map` is the map such a vector stands for (a later record wins over
//! an earlier one with the same key, which is also what repeated inserts into
//! a map do).
use vstd::prelude::*;

verus! {

/// The map a sequence of keyed records stands for.
pub open spec fn keyed_map<T, V>(s: Seq<T>, key: spec_fn(T) -> Seq<char>, val: spec_fn(T) -> V) -> Map<Seq<char>, V>
    decreases s.len(),
{
    if s.len() == 0 {
        Map::empty()
    } else {
        keyed_map(s.drop_last(), key, val).insert(key(s.last()), val(s.last()))
    }
}

/// No two records of `s` share a key.
pub open spec fn keys_unique<T>(s: Seq<T>, key: spec_fn(T) -> Seq<char>) -> bool {
    forall|i: int, j: int| 0 <= i < s.len() && 0 <= j < s.len() && i != j ==> key(s[i]) != key(s[j])
}

/// A key is in the map exactly when some record carries it.
pub proof fn lemma_keyed_dom<T, V>(s: Seq<T>, key: spec_fn(T) -> Seq<char>, val: spec_fn(T) -> V, k: Seq<char>)
    ensures
        keyed_map(s, key, val).dom().contains(k) <==> exists|i: int| 0 <= i < s.len() && key(s[i]) == k,
    decreases s.len(),
{
    if s.len() > 0 {
        let t = s.drop_last();
        lemma_keyed_dom(t, key, val, k);
        if exists|i: int| 0 <= i < t.len() && key(t[i]) == k {
            let i = choose|i: int| 0 <= i < t.len() && key(t[i]) == k;
            assert(s[i] == t[i]);
        }
        if exists|i: int| 0 <= i < s.len() && key(s[i]) == k {
            let i = choose|i: int| 0 <= i < s.len() && key(s[i]) == k;
            if i < s.len() - 1 {
                assert(t[i] == s[i]);
            }
        }
    }
}

/// With unique keys, the map gives each record's value under its key.
pub proof fn lemma_keyed_index<T, V>(s: Seq<T>, key: spec_fn(T) -> Seq<char>, val: spec_fn(T) -> V, i: int)
    requires
        keys_unique(s, key),
        0 <= i < s.len(),
    ensures
        keyed_map(s, key, val).dom().contains(key(s[i])),
        keyed_map(s, key, val)[key(s[i])] == val(s[i]),
    decreases s.len(),
{
    let t = s.drop_last();
    if i < s.len() - 1 {
        assert(t[i] == s[i]);
        assert(keys_unique(t, key)) by {
            assert forall|a: int, b: int| 0 <= a < t.len() && 0 <= b < t.len() && a != b implies key(t[a]) != key(t[b]) by {
                assert(t[a] == s[a] && t[b] == s[b]);
            }
        }
        lemma_keyed_index(t, key, val, i);
        assert(key(s[i]) != key(s.last()));
    }
}

/// Removing the last record keeps keys unique.
proof fn lemma_unique_drop_last<T>(s: Seq<T>, key: spec_fn(T) -> Seq<char>)
    requires
        keys_unique(s, key),
        s.len() > 0,
    ensures
        keys_unique(s.drop_last(), key),
{
    let t = s.drop_last();
    assert forall|a: int, b: int| 0 <= a < t.len() && 0 <= b < t.len() && a != b implies key(t[a]) != key(t[b]) by {
        assert(t[a] == s[a] && t[b] == s[b]);
    }
}

/// Appending a record with a new key keeps keys unique and inserts it.
pub proof fn lemma_keyed_push<T, V>(s: Seq<T>, key: spec_fn(T) -> Seq<char>, val: spec_fn(T) -> V, x: T)
    requires
        keys_unique(s, key),
        !keyed_map(s, key, val).dom().contains(key(x)),
    ensures
        keys_unique(s.push(x), key),
        keyed_map(s.push(x), key, val) == keyed_map(s, key, val).insert(key(x), val(x)),
{
    let u = s.push(x);
    assert(u.drop_last() == s);
    lemma_keyed_dom(s, key, val, key(x));
    assert forall|a: int, b: int| 0 <= a < u.len() && 0 <= b < u.len() && a != b implies key(u[a]) != key(u[b]) by {
        if a == s.len() {
            assert(u[b] == s[b]);
        } else if b == s.len() {
            assert(u[a] == s[a]);
        } else {
            assert(u[a] == s[a] && u[b] == s[b]);
        }
    }
}

/// Replacing a record by one with the same key updates the map at that key.
pub proof fn lemma_keyed_update<T, V>(s: Seq<T>, key: spec_fn(T) -> Seq<char>, val: spec_fn(T) -> V, i: int, x: T)
    requires
        keys_unique(s, key),
        0 <= i < s.len(),
        key(x) == key(s[i]),
    ensures
        keys_unique(s.update(i, x), key),
        keyed_map(s.update(i, x), key, val) == keyed_map(s, key, val).insert(key(x), val(x)),
    decreases s.len(),
{
    let u = s.update(i, x);
    assert forall|a: int, b: int| 0 <= a < u.len() && 0 <= b < u.len() && a != b implies key(u[a]) != key(u[b]) by {
        if a != i && b != i {
            assert(u[a] == s[a] && u[b] == s[b]);
        } else if a == i {
            assert(u[b] == s[b]);
        } else {
            assert(u[a] == s[a]);
        }
    }
    let t = s.drop_last();
    if i == s.len() - 1 {
        assert(u.drop_last() == t);
        assert(keyed_map(u, key, val) =~= keyed_map(s, key, val).insert(key(x), val(x)));
    } else {
        lemma_unique_drop_last(s, key);
        lemma_keyed_update(t, key, val, i, x);
        assert(u.drop_last() == t.update(i, x));
        assert(u.last() == s.last());
        assert(key(x) != key(s.last()));
        assert(keyed_map(u, key, val) =~= keyed_map(s, key, val).insert(key(x), val(x)));
    }
}

/// Removing a record removes its key from the map.
pub proof fn lemma_keyed_remove<T, V>(s: Seq<T>, key: spec_fn(T) -> Seq<char>, val: spec_fn(T) -> V, i: int)
    requires
        keys_unique(s, key),
        0 <= i < s.len(),
    ensures
        keys_unique(s.remove(i), key),
        keyed_map(s.remove(i), key, val) == keyed_map(s, key, val).remove(key(s[i])),
    decreases s.len(),
{
    let u = s.remove(i);
    assert forall|a: int, b: int| 0 <= a < u.len() && 0 <= b < u.len() && a != b implies key(u[a]) != key(u[b]) by {
        let a2 = if a < i { a } else { a + 1 };
        let b2 = if b < i { b } else { b + 1 };
        assert(u[a] == s[a2] && u[b] == s[b2]);
    }
    let t = s.drop_last();
    lemma_unique_drop_last(s, key);
    if i == s.len() - 1 {
        assert(u == t);
        lemma_keyed_dom(t, key, val, key(s[i]));
        assert forall|j: int| 0 <= j < t.len() implies key(t[j]) != key(s[i]) by {
            assert(t[j] == s[j]);
        }
        assert(keyed_map(u, key, val) =~= keyed_map(s, key, val).remove(key(s[i])));
    } else {
        lemma_keyed_remove(t, key, val, i);
        assert(u.drop_last() == t.remove(i));
        assert(u.last() == s.last());
        assert(t[i] == s[i]);
        assert(key(s[i]) != key(s.last()));
        assert(keyed_map(u, key, val) =~= keyed_map(s, key, val).remove(key(s[i])));
    }
}

/// Changing every record's value by `f` (keeping its key) changes every
/// value of the map by `f`.
pub proof fn lemma_keyed_map_values<T, V>(
    s: Seq<T>,
    t: Seq<T>,
    key: spec_fn(T) -> Seq<char>,
    val: spec_fn(T) -> V,
    f: spec_fn(V) -> V,
)
    requires
        s.len() == t.len(),
        forall|i: int| 0 <= i < s.len() ==> key(#[trigger] t[i]) == key(s[i]) && val(t[i]) == f(val(s[i])),
    ensures
        keyed_map(t, key, val) == keyed_map(s, key, val).map_values(f),
    decreases s.len(),
{
    if s.len() == 0 {
        assert(keyed_map(t, key, val) =~= keyed_map(s, key, val).map_values(f));
    } else {
        let s2 = s.drop_last();
        let t2 = t.drop_last();
        assert forall|i: int| 0 <= i < s2.len() implies key(#[trigger] t2[i]) == key(s2[i]) && val(t2[i]) == f(val(s2[i])) by {
            assert(t2[i] == t[i] && s2[i] == s[i]);
        }
        lemma_keyed_map_values(s2, t2, key, val, f);
        assert(t.last() == t[s.len() - 1]);
        assert(keyed_map(t, key, val) =~= keyed_map(s, key, val).map_values(f));
    }
}

/// Keys stay unique when every record keeps its key.
pub proof fn lemma_unique_same_keys<T>(s: Seq<T>, t: Seq<T>, key: spec_fn(T) -> Seq<char>)
    requires
        keys_unique(s, key),
        s.len() == t.len(),
        forall|i: int| 0 <= i < s.len() ==> key(#[trigger] t[i]) == key(s[i]),
    ensures
        keys_unique(t, key),
{
    assert forall|a: int, b: int| 0 <= a < t.len() && 0 <= b < t.len() && a != b implies key(t[a]) != key(t[b]) by {
        assert(key(t[a]) == key(s[a]) && key(t[b]) == key(s[b]));
    }
}

} // verus!
