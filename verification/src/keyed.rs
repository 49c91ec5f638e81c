//! Sequences of records addressed by a string key.
//!
//! The registry keeps its providers, validators and subscriber sets as
//! vectors whose elements carry a unique key.  The spec functions here give
//! such vectors a map-like reading — membership, the record under a key —
//! and the lemmas say how that reading survives the three edits the
//! registry performs: replacing a record in place, appending one, and
//! removing one.

use vstd::prelude::*;

verus! {

/// Whether some record in `s` carries the key `id`.
pub open spec fn keyed_has<T>(s: Seq<T>, key: spec_fn(T) -> Seq<char>, id: Seq<char>) -> bool {
    exists|i: int| 0 <= i < s.len() && key(s[i]) == id
}

/// The position of the record carrying `id`.
pub open spec fn keyed_index<T>(s: Seq<T>, key: spec_fn(T) -> Seq<char>, id: Seq<char>) -> int {
    choose|i: int| 0 <= i < s.len() && key(s[i]) == id
}

/// The record carrying `id`.
pub open spec fn keyed_at<T>(s: Seq<T>, key: spec_fn(T) -> Seq<char>, id: Seq<char>) -> T {
    s[keyed_index(s, key, id)]
}

/// No two records carry the same key.
pub open spec fn keyed_unique<T>(s: Seq<T>, key: spec_fn(T) -> Seq<char>) -> bool {
    forall|i: int, j: int|
        #![trigger key(s[i]), key(s[j])]
        0 <= i < j < s.len() ==> key(s[i]) != key(s[j])
}

/// Under unique keys, a key determines its record's position.
pub proof fn lemma_keyed_index_unique<T>(
    s: Seq<T>,
    key: spec_fn(T) -> Seq<char>,
    a: int,
    b: int,
)
    requires
        keyed_unique(s, key),
        0 <= a < s.len(),
        0 <= b < s.len(),
        key(s[a]) == key(s[b]),
    ensures
        a == b,
{
    if a < b {
        assert(key(s[a]) != key(s[b]));
    } else if b < a {
        assert(key(s[b]) != key(s[a]));
    }
}

/// Removing the record at `i` leaves every other key's reading unchanged,
/// and uniqueness with it.
pub proof fn lemma_keyed_remove<T>(s: Seq<T>, key: spec_fn(T) -> Seq<char>, i: int)
    requires
        keyed_unique(s, key),
        0 <= i < s.len(),
    ensures
        keyed_unique(s.remove(i), key),
        forall|id: Seq<char>|
            id != key(s[i]) ==> #[trigger] keyed_has(s.remove(i), key, id) == keyed_has(
                s,
                key,
                id,
            ),
        forall|id: Seq<char>|
            id != key(s[i]) && keyed_has(s, key, id) ==> #[trigger] keyed_at(s.remove(i), key, id)
                == keyed_at(s, key, id),
        !keyed_has(s.remove(i), key, key(s[i])),
{
    let t = s.remove(i);
    assert(t.len() == s.len() - 1);
    assert(forall|j: int| 0 <= j < i ==> t[j] == s[j]);
    assert(forall|j: int| i <= j < t.len() ==> t[j] == s[j + 1]);
    assert forall|a: int, b: int|
        0 <= a < b < t.len() implies #[trigger] key(t[a]) != #[trigger] key(t[b]) by {
        let a2 = if a < i { a } else { a + 1 };
        let b2 = if b < i { b } else { b + 1 };
        assert(t[a] == s[a2] && t[b] == s[b2]);
        assert(key(s[a2]) != key(s[b2]));
    }
    assert forall|id: Seq<char>| id != key(s[i]) implies #[trigger] keyed_has(t, key, id)
        == keyed_has(s, key, id) by {
        if keyed_has(s, key, id) {
            let w = keyed_index(s, key, id);
            let w2 = if w < i { w } else { w - 1 };
            assert(w != i);
            assert(t[w2] == s[w]);
            assert(keyed_has(t, key, id));
        }
        if keyed_has(t, key, id) {
            let w = keyed_index(t, key, id);
            let w2 = if w < i { w } else { w + 1 };
            assert(t[w] == s[w2]);
            assert(keyed_has(s, key, id));
        }
    }
    assert forall|id: Seq<char>| id != key(s[i]) && keyed_has(s, key, id) implies #[trigger]
        keyed_at(t, key, id) == keyed_at(s, key, id) by {
        let w = keyed_index(s, key, id);
        let w2 = if w < i { w } else { w - 1 };
        assert(w != i);
        assert(t[w2] == s[w] && key(t[w2]) == id);
        assert(keyed_has(t, key, id));
        lemma_keyed_index_unique(t, key, keyed_index(t, key, id), w2);
    }
    if keyed_has(t, key, key(s[i])) {
        let w = keyed_index(t, key, key(s[i]));
        let w2 = if w < i { w } else { w + 1 };
        assert(t[w] == s[w2]);
        assert(key(s[w2]) == key(s[i]));
        lemma_keyed_index_unique(s, key, w2, i);
        assert(false);
    }
}

/// Appending a record with a fresh key keeps every old key's reading, adds
/// the new one, and preserves uniqueness.
pub proof fn lemma_keyed_push<T>(s: Seq<T>, key: spec_fn(T) -> Seq<char>, x: T)
    requires
        keyed_unique(s, key),
        !keyed_has(s, key, key(x)),
    ensures
        keyed_unique(s.push(x), key),
        forall|id: Seq<char>|
            id != key(x) ==> #[trigger] keyed_has(s.push(x), key, id) == keyed_has(s, key, id),
        forall|id: Seq<char>|
            id != key(x) && keyed_has(s, key, id) ==> #[trigger] keyed_at(s.push(x), key, id)
                == keyed_at(s, key, id),
        keyed_has(s.push(x), key, key(x)),
        keyed_at(s.push(x), key, key(x)) == x,
{
    let t = s.push(x);
    assert(t[s.len() as int] == x);
    assert(forall|j: int| 0 <= j < s.len() ==> t[j] == s[j]);
    assert forall|a: int, b: int|
        0 <= a < b < t.len() implies #[trigger] key(t[a]) != #[trigger] key(t[b]) by {
        if b < s.len() {
        } else {
            assert(t[b] == x);
            assert(t[a] == s[a]);
            assert(keyed_has(s, key, key(s[a])));
        }
    }
    assert forall|id: Seq<char>| id != key(x) implies #[trigger] keyed_has(t, key, id)
        == keyed_has(s, key, id) by {
        if keyed_has(s, key, id) {
            let w = keyed_index(s, key, id);
            assert(t[w] == s[w]);
            assert(keyed_has(t, key, id));
        }
        if keyed_has(t, key, id) {
            let w = keyed_index(t, key, id);
            assert(w < s.len());
            assert(keyed_has(s, key, id));
        }
    }
    assert forall|id: Seq<char>| id != key(x) && keyed_has(s, key, id) implies #[trigger]
        keyed_at(t, key, id) == keyed_at(s, key, id) by {
        let w = keyed_index(s, key, id);
        assert(t[w] == s[w] && key(t[w]) == id);
        assert(keyed_has(t, key, id));
        lemma_keyed_index_unique(t, key, keyed_index(t, key, id), w);
    }
    assert(keyed_has(t, key, key(x)));
    lemma_keyed_index_unique(t, key, keyed_index(t, key, key(x)), s.len() as int);
}

/// Replacing the record at `i` with one carrying the same key rewrites that
/// key's reading and nothing else.
pub proof fn lemma_keyed_update<T>(s: Seq<T>, key: spec_fn(T) -> Seq<char>, i: int, x: T)
    requires
        keyed_unique(s, key),
        0 <= i < s.len(),
        key(x) == key(s[i]),
    ensures
        keyed_unique(s.update(i, x), key),
        forall|id: Seq<char>|
            id != key(x) ==> #[trigger] keyed_has(s.update(i, x), key, id) == keyed_has(
                s,
                key,
                id,
            ),
        forall|id: Seq<char>|
            id != key(x) && keyed_has(s, key, id) ==> #[trigger] keyed_at(s.update(i, x), key, id)
                == keyed_at(s, key, id),
        keyed_has(s.update(i, x), key, key(x)),
        keyed_at(s.update(i, x), key, key(x)) == x,
{
    let t = s.update(i, x);
    assert(t[i] == x);
    assert(forall|j: int| 0 <= j < s.len() && j != i ==> t[j] == s[j]);
    assert forall|a: int, b: int|
        0 <= a < b < t.len() implies #[trigger] key(t[a]) != #[trigger] key(t[b]) by {
        assert(key(t[a]) == key(s[a]) && key(t[b]) == key(s[b]));
    }
    assert forall|id: Seq<char>| id != key(x) implies #[trigger] keyed_has(t, key, id)
        == keyed_has(s, key, id) by {
        if keyed_has(s, key, id) {
            let w = keyed_index(s, key, id);
            assert(w != i);
            assert(t[w] == s[w]);
            assert(keyed_has(t, key, id));
        }
        if keyed_has(t, key, id) {
            let w = keyed_index(t, key, id);
            assert(w != i);
            assert(keyed_has(s, key, id));
        }
    }
    assert forall|id: Seq<char>| id != key(x) && keyed_has(s, key, id) implies #[trigger]
        keyed_at(t, key, id) == keyed_at(s, key, id) by {
        let w = keyed_index(s, key, id);
        assert(w != i);
        assert(t[w] == s[w] && key(t[w]) == id);
        assert(keyed_has(t, key, id));
        lemma_keyed_index_unique(t, key, keyed_index(t, key, id), w);
    }
    assert(keyed_has(t, key, key(x)));
    lemma_keyed_index_unique(t, key, keyed_index(t, key, key(x)), i);
}

} // verus!
