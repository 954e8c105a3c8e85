//! Association sequences: the mathematical model behind the small
//! key-to-value tables that the contracts keep. A lookup takes the first
//! entry with the key; the executable tables only ever add a key that is
//! absent, so keys stay unique and the first match is the only match.
use vstd::prelude::*;

verus! {

/// The value bound to `k`, if any, reading from the front.
pub open spec fn assoc_get<K, V>(s: Seq<(K, V)>, k: K) -> Option<V>
    decreases s.len(),
{
    if s.len() == 0 {
        None
    } else if s[0].0 == k {
        Some(s[0].1)
    } else {
        assoc_get(s.drop_first(), k)
    }
}

/// No two entries bind the same key.
pub open spec fn unique_keys<K, V>(s: Seq<(K, V)>) -> bool {
    forall|i: int, j: int| 0 <= i < j < s.len() ==> s[i].0 != s[j].0
}

/// The sum of all bound values.
pub open spec fn assoc_total<K>(s: Seq<(K, u128)>) -> int
    decreases s.len(),
{
    if s.len() == 0 {
        0
    } else {
        s[0].1 + assoc_total(s.drop_first())
    }
}

pub proof fn lemma_total_nonneg<K>(s: Seq<(K, u128)>)
    ensures
        assoc_total(s) >= 0,
    decreases s.len(),
{
    if s.len() > 0 {
        lemma_total_nonneg(s.drop_first());
    }
}

/// An entry whose key no earlier entry shares is the one a lookup finds.
pub proof fn lemma_get_found<K, V>(s: Seq<(K, V)>, k: K, i: int)
    requires
        0 <= i < s.len(),
        s[i].0 == k,
        forall|j: int| 0 <= j < i ==> s[j].0 != k,
    ensures
        assoc_get(s, k) == Some(s[i].1),
    decreases i,
{
    if i > 0 {
        assert(s[0].0 != k);
        assert forall|j: int| 0 <= j < i - 1 implies s.drop_first()[j].0 != k by {
            assert(s.drop_first()[j] == s[j + 1]);
        }
        lemma_get_found(s.drop_first(), k, i - 1);
    }
}

/// A key that no entry binds looks up to nothing.
pub proof fn lemma_get_absent<K, V>(s: Seq<(K, V)>, k: K)
    requires
        forall|j: int| 0 <= j < s.len() ==> s[j].0 != k,
    ensures
        assoc_get(s, k) is None,
    decreases s.len(),
{
    if s.len() > 0 {
        assert forall|j: int| 0 <= j < s.len() - 1 implies s.drop_first()[j].0 != k by {
            assert(s.drop_first()[j] == s[j + 1]);
        }
        lemma_get_absent(s.drop_first(), k);
    }
}

/// Rebinding the entry at `i` leaves every other key's lookup unchanged.
pub proof fn lemma_get_update_other<K, V>(s: Seq<(K, V)>, i: int, v: V, b: K)
    requires
        0 <= i < s.len(),
        b != s[i].0,
    ensures
        assoc_get(s.update(i, (s[i].0, v)), b) == assoc_get(s, b),
    decreases i,
{
    let t = s.update(i, (s[i].0, v));
    if i == 0 {
        assert(t.drop_first() =~= s.drop_first());
    } else {
        assert(t[0] == s[0]);
        if s[0].0 == b {
        } else {
            assert(t.drop_first() =~= s.drop_first().update(i - 1, (s.drop_first()[i - 1].0, v)));
            lemma_get_update_other(s.drop_first(), i - 1, v, b);
        }
    }
}

/// Rebinding the entry at `i` moves the sum by the difference of the values.
pub proof fn lemma_total_update<K>(s: Seq<(K, u128)>, i: int, v: u128)
    requires
        0 <= i < s.len(),
    ensures
        assoc_total(s.update(i, (s[i].0, v))) == assoc_total(s) - s[i].1 + v,
    decreases i,
{
    let t = s.update(i, (s[i].0, v));
    if i == 0 {
        assert(t.drop_first() =~= s.drop_first());
    } else {
        assert(t[0] == s[0]);
        assert(t.drop_first() =~= s.drop_first().update(i - 1, (s.drop_first()[i - 1].0, v)));
        lemma_total_update(s.drop_first(), i - 1, v);
    }
}

/// Appending an entry changes only the lookup of a key that was absent.
pub proof fn lemma_get_push<K, V>(s: Seq<(K, V)>, p: (K, V), b: K)
    ensures
        assoc_get(s.push(p), b) == (if assoc_get(s, b) is Some {
            assoc_get(s, b)
        } else if b == p.0 {
            Some(p.1)
        } else {
            None::<V>
        }),
    decreases s.len(),
{
    let t = s.push(p);
    assert(t.len() == s.len() + 1);
    if s.len() == 0 {
        assert(t[0] == p);
        assert(t.drop_first() =~= Seq::<(K, V)>::empty());
        if p.0 == b {
            assert(assoc_get(t, b) == Some(p.1));
        } else {
            assert(assoc_get(t, b) == assoc_get(t.drop_first(), b));
            assert(assoc_get(t, b) is None);
        }
        assert(assoc_get(s, b) is None);
    } else {
        assert(t[0] == s[0]);
        assert(t.drop_first() =~= s.drop_first().push(p));
        lemma_get_push(s.drop_first(), p, b);
        if s[0].0 == b {
            assert(assoc_get(t, b) == Some(s[0].1));
            assert(assoc_get(s, b) == Some(s[0].1));
        } else {
            assert(assoc_get(t, b) == assoc_get(s.drop_first().push(p), b));
            assert(assoc_get(s, b) == assoc_get(s.drop_first(), b));
        }
    }
}

/// Appending an entry adds its value to the sum.
pub proof fn lemma_total_push<K>(s: Seq<(K, u128)>, p: (K, u128))
    ensures
        assoc_total(s.push(p)) == assoc_total(s) + p.1,
    decreases s.len(),
{
    let t = s.push(p);
    assert(t.len() == s.len() + 1);
    if s.len() == 0 {
        assert(t[0] == p);
        assert(t.drop_first() =~= Seq::<(K, u128)>::empty());
        assert(assoc_total(t) == p.1 + assoc_total(t.drop_first()));
        assert(assoc_total(t.drop_first()) == 0);
        assert(assoc_total(s) == 0);
    } else {
        assert(t[0] == s[0]);
        assert(t.drop_first() =~= s.drop_first().push(p));
        lemma_total_push(s.drop_first(), p);
        assert(assoc_total(t) == s[0].1 + assoc_total(s.drop_first().push(p)));
        assert(assoc_total(s) == s[0].1 + assoc_total(s.drop_first()));
    }
}

/// A looked-up value never exceeds the sum of all values.
pub proof fn lemma_get_le_total<K>(s: Seq<(K, u128)>, k: K)
    ensures
        match assoc_get(s, k) {
            Some(v) => v <= assoc_total(s),
            None => true,
        },
    decreases s.len(),
{
    if s.len() > 0 {
        lemma_total_nonneg(s.drop_first());
        if s[0].0 == k {
        } else {
            lemma_get_le_total(s.drop_first(), k);
        }
    }
}

} // verus!
