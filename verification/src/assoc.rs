//! First-match association lookup over a sequence of key/value pairs,
//! with the lemmas that relate a lookup to the indices of the sequence
//! and to pushing or removing a pair.
//!
//! The registry, the catalog and the install manager all keep their
//! state in vectors of records; each views that vector as a sequence
//! of key/value pairs and states its contracts over `assoc_lookup`.

use vstd::prelude::*;

verus! {

/// The value of the first pair whose key equals `k`, scanning from the
/// front, or `None` when no pair matches.
pub open spec fn assoc_lookup<K, V>(s: Seq<(K, V)>, k: K) -> Option<V>
    decreases s.len(),
{
    if s.len() == 0 {
        None
    } else if s[0].0 == k {
        Some(s[0].1)
    } else {
        assoc_lookup(s.drop_first(), k)
    }
}

/// No two pairs share a key.
pub open spec fn assoc_unique<K, V>(s: Seq<(K, V)>) -> bool {
    forall|i: int, j: int| 0 <= i < j < s.len() ==> s[i].0 != s[j].0
}

/// A lookup misses exactly when no index holds the key.
pub proof fn lemma_assoc_none_iff<K, V>(s: Seq<(K, V)>, k: K)
    ensures
        assoc_lookup(s, k) is None <==> (forall|i: int| 0 <= i < s.len() ==> s[i].0 != k),
    decreases s.len(),
{
    if s.len() > 0 {
        lemma_assoc_none_iff(s.drop_first(), k);
        if s[0].0 != k {
            if forall|i: int| 0 <= i < s.drop_first().len() ==> s.drop_first()[i].0 != k {
                assert forall|i: int| 0 <= i < s.len() implies s[i].0 != k by {
                    if i > 0 {
                        assert(s.drop_first()[i - 1] == s[i]);
                    }
                }
            }
            if forall|i: int| 0 <= i < s.len() ==> s[i].0 != k {
                assert forall|i: int| 0 <= i < s.drop_first().len() implies s.drop_first()[i].0
                    != k by {
                    assert(s.drop_first()[i] == s[i + 1]);
                }
            }
        }
    }
}

/// A hit names the value of some matching index.
pub proof fn lemma_assoc_some_index<K, V>(s: Seq<(K, V)>, k: K)
    requires
        assoc_lookup(s, k) is Some,
    ensures
        exists|i: int|
            0 <= i < s.len() && s[i].0 == k && Some(s[i].1) == assoc_lookup(s, k),
    decreases s.len(),
{
    if s[0].0 == k {
        assert(s[0].0 == k && Some(s[0].1) == assoc_lookup(s, k));
    } else {
        lemma_assoc_some_index(s.drop_first(), k);
        let i = choose|i: int|
            0 <= i < s.drop_first().len() && s.drop_first()[i].0 == k && Some(
                s.drop_first()[i].1,
            ) == assoc_lookup(s.drop_first(), k);
        assert(s[i + 1] == s.drop_first()[i]);
    }
}

/// The first matching index decides the lookup.
pub proof fn lemma_assoc_first_match<K, V>(s: Seq<(K, V)>, k: K, i: int)
    requires
        0 <= i < s.len(),
        s[i].0 == k,
        forall|j: int| 0 <= j < i ==> s[j].0 != k,
    ensures
        assoc_lookup(s, k) == Some(s[i].1),
    decreases i,
{
    if i == 0 {
    } else {
        assert forall|j: int| 0 <= j < i - 1 implies s.drop_first()[j].0 != k by {
            assert(s.drop_first()[j] == s[j + 1]);
        }
        assert(s.drop_first()[i - 1] == s[i]);
        lemma_assoc_first_match(s.drop_first(), k, i - 1);
    }
}

/// With unique keys, any matching index decides the lookup.
pub proof fn lemma_assoc_unique_match<K, V>(s: Seq<(K, V)>, k: K, i: int)
    requires
        assoc_unique(s),
        0 <= i < s.len(),
        s[i].0 == k,
    ensures
        assoc_lookup(s, k) == Some(s[i].1),
{
    lemma_assoc_first_match(s, k, i);
}

/// Appending a pair leaves every present key as it was and serves the
/// new pair only for a key that was absent.
pub proof fn lemma_assoc_push<K, V>(s: Seq<(K, V)>, p: (K, V), k: K)
    ensures
        assoc_lookup(s.push(p), k) == (if assoc_lookup(s, k) is Some {
            assoc_lookup(s, k)
        } else if p.0 == k {
            Some(p.1)
        } else {
            None::<V>
        }),
    decreases s.len(),
{
    if s.len() == 0 {
        assert(s.push(p)[0] == p);
        assert(s.push(p).drop_first() =~= s);
    } else {
        assert(s.push(p)[0] == s[0]);
        if s[0].0 == k {
            assert(assoc_lookup(s.push(p), k) == Some(s.push(p)[0].1));
        } else {
            assert(s.push(p).drop_first() =~= s.drop_first().push(p));
            lemma_assoc_push(s.drop_first(), p, k);
        }
    }
}

/// With unique keys, removing the pair at `j` erases exactly its key.
pub proof fn lemma_assoc_remove<K, V>(s: Seq<(K, V)>, j: int, k: K)
    requires
        assoc_unique(s),
        0 <= j < s.len(),
    ensures
        assoc_lookup(s.remove(j), k) == (if s[j].0 == k {
            None::<V>
        } else {
            assoc_lookup(s, k)
        }),
    decreases s.len(),
{
    if j == 0 {
        assert(s.remove(0) =~= s.drop_first());
        if s[0].0 == k {
            lemma_assoc_none_iff(s.drop_first(), k);
            assert forall|i: int| 0 <= i < s.drop_first().len() implies s.drop_first()[i].0 != k by {
                assert(s.drop_first()[i] == s[i + 1]);
            }
        }
    } else {
        assert(s.remove(j)[0] == s[0]);
        if s[0].0 == k {
        } else {
            assert(s.remove(j).drop_first() =~= s.drop_first().remove(j - 1));
            assert forall|a: int, b: int|
                0 <= a < b < s.drop_first().len() implies s.drop_first()[a].0
                != s.drop_first()[b].0 by {
                assert(s.drop_first()[a] == s[a + 1]);
                assert(s.drop_first()[b] == s[b + 1]);
            }
            lemma_assoc_remove(s.drop_first(), j - 1, k);
        }
    }
}

/// Uniqueness survives removal.
pub proof fn lemma_assoc_unique_remove<K, V>(s: Seq<(K, V)>, j: int)
    requires
        assoc_unique(s),
        0 <= j < s.len(),
    ensures
        assoc_unique(s.remove(j)),
{
    assert forall|a: int, b: int|
        0 <= a < b < s.remove(j).len() implies s.remove(j)[a].0 != s.remove(j)[b].0 by {
        let a0 = if a < j { a } else { a + 1 };
        let b0 = if b < j { b } else { b + 1 };
        assert(s.remove(j)[a] == s[a0]);
        assert(s.remove(j)[b] == s[b0]);
    }
}

/// Uniqueness survives appending a pair whose key is absent.
pub proof fn lemma_assoc_unique_push<K, V>(s: Seq<(K, V)>, p: (K, V))
    requires
        assoc_unique(s),
        forall|i: int| 0 <= i < s.len() ==> s[i].0 != p.0,
    ensures
        assoc_unique(s.push(p)),
{
    assert forall|a: int, b: int|
        0 <= a < b < s.push(p).len() implies s.push(p)[a].0 != s.push(p)[b].0 by {
        assert(s.push(p)[a] == s[a]);
        if b < s.len() {
            assert(s.push(p)[b] == s[b]);
        } else {
            assert(s.push(p)[b] == p);
        }
    }
}

} // verus!
