//! Association sequences keyed by character sequences: the mathematical model
//! behind both the credential store (username to secret) and the connection
//! registry (username to client handle). Lookup returns the first entry with
//! the given key; under the uniqueness invariant it is the only one.

use vstd::prelude::*;

verus! {

/// First-match lookup of `key` in the association sequence `m`.
pub open spec fn lookup<V>(m: Seq<(Seq<char>, V)>, key: Seq<char>) -> Option<V>
    decreases m.len(),
{
    if m.len() == 0 {
        None
    } else if m[0].0 == key {
        Some(m[0].1)
    } else {
        lookup(m.drop_first(), key)
    }
}

/// Each key appears in at most one entry.
pub open spec fn unique_keys<V>(m: Seq<(Seq<char>, V)>) -> bool {
    forall|i: int, j: int| 0 <= i < j < m.len() ==> m[i].0 != m[j].0
}

/// The position of the first entry with the given key; meaningful only when
/// `lookup` succeeds.
pub open spec fn key_index<V>(m: Seq<(Seq<char>, V)>, key: Seq<char>) -> int
    decreases m.len(),
{
    if m.len() == 0 {
        0
    } else if m[0].0 == key {
        0
    } else {
        1 + key_index(m.drop_first(), key)
    }
}

proof fn lemma_lookup_some_has_key<V>(m: Seq<(Seq<char>, V)>, key: Seq<char>)
    requires
        lookup(m, key) is Some,
    ensures
        exists|i: int| 0 <= i < m.len() && m[i].0 == key,
    decreases m.len(),
{
    if m[0].0 == key {
        assert(0 <= 0 < m.len() && m[0].0 == key);
    } else {
        let t = m.drop_first();
        lemma_lookup_some_has_key(t, key);
        let j = choose|i: int| 0 <= i < t.len() && t[i].0 == key;
        assert(m[j + 1].0 == key);
    }
}

proof fn lemma_no_key_lookup_none<V>(m: Seq<(Seq<char>, V)>, key: Seq<char>)
    requires
        forall|i: int| 0 <= i < m.len() ==> m[i].0 != key,
    ensures
        lookup(m, key) is None,
    decreases m.len(),
{
    if m.len() > 0 {
        let t = m.drop_first();
        assert forall|i: int| 0 <= i < t.len() implies t[i].0 != key by {
            assert(t[i] == m[i + 1]);
        }
        lemma_no_key_lookup_none(t, key);
    }
}

proof fn lemma_lookup_none_no_key<V>(m: Seq<(Seq<char>, V)>, key: Seq<char>)
    requires
        lookup(m, key) is None,
    ensures
        forall|i: int| 0 <= i < m.len() ==> m[i].0 != key,
    decreases m.len(),
{
    if m.len() > 0 {
        let t = m.drop_first();
        lemma_lookup_none_no_key(t, key);
        assert forall|i: int| 0 <= i < m.len() implies m[i].0 != key by {
            if i > 0 {
                assert(m[i] == t[i - 1]);
            }
        }
    }
}

/// How many entries carry the given key.
pub open spec fn key_count<V>(m: Seq<(Seq<char>, V)>, key: Seq<char>) -> int
    decreases m.len(),
{
    if m.len() == 0 {
        0
    } else {
        (if m[0].0 == key {
            1int
        } else {
            0int
        }) + key_count(m.drop_first(), key)
    }
}

proof fn lemma_no_key_count_zero<V>(m: Seq<(Seq<char>, V)>, key: Seq<char>)
    requires
        forall|i: int| 0 <= i < m.len() ==> m[i].0 != key,
    ensures
        key_count(m, key) == 0,
    decreases m.len(),
{
    if m.len() > 0 {
        let t = m.drop_first();
        assert forall|i: int| 0 <= i < t.len() implies t[i].0 != key by {
            assert(t[i] == m[i + 1]);
        }
        lemma_no_key_count_zero(t, key);
    }
}

/// Under the uniqueness invariant, a key `lookup` finds is carried by exactly
/// one entry, and a key it does not find by none.
pub proof fn lemma_unique_key_count<V>(m: Seq<(Seq<char>, V)>, key: Seq<char>)
    requires
        unique_keys(m),
    ensures
        key_count(m, key) == (if lookup(m, key) is Some {
            1int
        } else {
            0int
        }),
    decreases m.len(),
{
    if m.len() > 0 {
        let t = m.drop_first();
        assert(forall|i: int| 0 <= i < t.len() ==> t[i] == m[i + 1]);
        assert(unique_keys(t));
        if m[0].0 == key {
            assert forall|i: int| 0 <= i < t.len() implies t[i].0 != key by {
                assert(m[0].0 != m[i + 1].0);
            }
            lemma_no_key_count_zero(t, key);
        } else {
            lemma_unique_key_count(t, key);
        }
    }
}

/// A key absent from every entry is exactly a key on which `lookup` fails.
pub proof fn lemma_lookup_none_iff_no_key<V>(m: Seq<(Seq<char>, V)>, key: Seq<char>)
    ensures
        (lookup(m, key) is None) <==> (forall|i: int| 0 <= i < m.len() ==> m[i].0 != key),
{
    if lookup(m, key) is None {
        lemma_lookup_none_no_key(m, key);
    } else {
        lemma_lookup_some_has_key(m, key);
        let j = choose|i: int| 0 <= i < m.len() && m[i].0 == key;
        assert(0 <= j < m.len() && m[j].0 == key);
    }
}

/// When the first match stands at position `i`, `lookup` returns that entry's
/// value and `key_index` that position.
pub proof fn lemma_lookup_at_first_match<V>(m: Seq<(Seq<char>, V)>, key: Seq<char>, i: int)
    requires
        0 <= i < m.len(),
        m[i].0 == key,
        forall|k: int| 0 <= k < i ==> m[k].0 != key,
    ensures
        lookup(m, key) == Some(m[i].1),
        key_index(m, key) == i,
    decreases i,
{
    if i > 0 {
        let t = m.drop_first();
        assert(forall|k: int| 0 <= k < i - 1 ==> t[k] == m[k + 1]);
        assert(t[i - 1] == m[i]);
        lemma_lookup_at_first_match(t, key, i - 1);
    }
}

/// When `lookup` succeeds, `key_index` names the first entry with the key.
pub proof fn lemma_key_index_of_lookup<V>(m: Seq<(Seq<char>, V)>, key: Seq<char>)
    requires
        lookup(m, key) is Some,
    ensures
        0 <= key_index(m, key) < m.len(),
        m[key_index(m, key)].0 == key,
        lookup(m, key) == Some(m[key_index(m, key)].1),
        forall|k: int| 0 <= k < key_index(m, key) ==> m[k].0 != key,
    decreases m.len(),
{
    if m[0].0 != key {
        let t = m.drop_first();
        lemma_key_index_of_lookup(t, key);
        assert(forall|i: int| 0 <= i < t.len() ==> t[i] == m[i + 1]);
        assert forall|k: int| 0 <= k < key_index(m, key) implies m[k].0 != key by {
            if k > 0 {
                assert(m[k] == t[k - 1]);
            }
        }
    }
}

/// How `lookup` behaves after one entry is appended: an earlier entry for the
/// key still wins; otherwise the new entry is found.
pub proof fn lemma_lookup_push<V>(m: Seq<(Seq<char>, V)>, x: (Seq<char>, V), key: Seq<char>)
    ensures
        lookup(m.push(x), key) == (if lookup(m, key) is Some {
            lookup(m, key)
        } else if x.0 == key {
            Some(x.1)
        } else {
            None
        }),
    decreases m.len(),
{
    if m.len() == 0 {
        assert(m.push(x).drop_first() =~= m);
    } else {
        assert(m.push(x).drop_first() =~= m.drop_first().push(x));
        lemma_lookup_push(m.drop_first(), x, key);
    }
}

} // verus!
