//! Sequences of key/value entries: the value last stored under a key, and
//! the sequence with a key's entries taken out.
use vstd::prelude::*;

verus! {

/// The value of the last entry of `s` under `k`.
pub open spec fn lookup<K, V>(s: Seq<(K, V)>, k: K) -> Option<V>
    decreases s.len(),
{
    if s.len() == 0 {
        None
    } else if s.last().0 == k {
        Some(s.last().1)
    } else {
        lookup(s.drop_last(), k)
    }
}

/// `s` without its entries under `k`, the others in order.
pub open spec fn without<K, V>(s: Seq<(K, V)>, k: K) -> Seq<(K, V)>
    decreases s.len(),
{
    if s.len() == 0 {
        s
    } else if s.last().0 == k {
        without(s.drop_last(), k)
    } else {
        without(s.drop_last(), k).push(s.last())
    }
}

/// No two entries of `s` share a key.
pub open spec fn unique_keys<K, V>(s: Seq<(K, V)>) -> bool {
    forall|i: int, j: int| 0 <= i < s.len() && 0 <= j < s.len() && i != j ==> s[i].0 != s[j].0
}

/// `e` is one of the entries of `s`.
pub open spec fn occurs<K, V>(s: Seq<(K, V)>, e: (K, V)) -> bool {
    exists|j: int| 0 <= j < s.len() && s[j] == e
}

pub proof fn lemma_without_absent<K, V>(s: Seq<(K, V)>, k: K)
    requires
        forall|i: int| 0 <= i < s.len() ==> s[i].0 != k,
    ensures
        without(s, k) == s,
        lookup(s, k) is None,
    decreases s.len(),
{
    if s.len() > 0 {
        lemma_without_absent(s.drop_last(), k);
        assert(s.drop_last().push(s.last()) =~= s);
    }
}

pub proof fn lemma_without_present<K, V>(s: Seq<(K, V)>, i: int)
    requires
        unique_keys(s),
        0 <= i < s.len(),
    ensures
        without(s, s[i].0) == s.remove(i),
        lookup(s, s[i].0) == Some(s[i].1),
    decreases s.len(),
{
    let k = s[i].0;
    let d = s.drop_last();
    if i == s.len() - 1 {
        lemma_without_absent(d, k);
        assert(d =~= s.remove(i));
    } else {
        assert(d[i] == s[i]);
        lemma_without_present(d, i);
        assert(d.remove(i).push(s.last()) =~= s.remove(i));
    }
}

/// No entry of `without(s, k)` is under `k`, and every other entry stays.
pub proof fn lemma_without_keys<K, V>(s: Seq<(K, V)>, k: K)
    ensures
        forall|i: int| 0 <= i < without(s, k).len() ==> without(s, k)[i].0 != k,
        forall|i: int| 0 <= i < without(s, k).len() ==> occurs(s, #[trigger] without(s, k)[i]),
        without(s, k).len() <= s.len(),
    decreases s.len(),
{
    if s.len() > 0 {
        let d = s.drop_last();
        lemma_without_keys(d, k);
        assert forall|i: int| 0 <= i < without(s, k).len() implies occurs(
            s,
            #[trigger] without(s, k)[i],
        ) by {
            if i < without(d, k).len() {
                assert(occurs(d, without(d, k)[i]));
                let j = choose|j: int| 0 <= j < d.len() && d[j] == without(d, k)[i];
                assert(s[j] == without(s, k)[i]);
            } else {
                assert(s[s.len() - 1] == without(s, k)[i]);
            }
        }
    }
}

/// Taking a key out twice is taking it out once.
pub proof fn lemma_without_twice<K, V>(s: Seq<(K, V)>, k: K)
    ensures
        without(without(s, k), k) == without(s, k),
{
    lemma_without_keys(s, k);
    lemma_without_absent(without(s, k), k);
}

/// After a value is stored under a key, the key's entries replaced, the key
/// gives that value, and other keys give what they gave before.
pub proof fn lemma_store_then_lookup<K, V>(s: Seq<(K, V)>, k: K, v: V, other: K)
    ensures
        lookup(without(s, k).push((k, v)), k) == Some(v),
        other != k ==> lookup(without(s, k).push((k, v)), other) == lookup(s, other),
    decreases s.len(),
{
    let t = without(s, k).push((k, v));
    assert(t.drop_last() =~= without(s, k));
    if other != k {
        lemma_lookup_without(s, k, other);
    }
}

pub proof fn lemma_lookup_without<K, V>(s: Seq<(K, V)>, k: K, other: K)
    requires
        other != k,
    ensures
        lookup(without(s, k), other) == lookup(s, other),
    decreases s.len(),
{
    if s.len() > 0 {
        let d = s.drop_last();
        lemma_lookup_without(d, k, other);
        if s.last().0 != k {
            assert(without(s, k).drop_last() =~= without(d, k));
        }
    }
}

/// Storing a value under a key keeps the keys unique.
pub proof fn lemma_store_unique<K, V>(s: Seq<(K, V)>, k: K, v: V)
    requires
        unique_keys(s),
    ensures
        unique_keys(without(s, k).push((k, v))),
    decreases s.len(),
{
    lemma_without_keys(s, k);
    lemma_without_unique(s, k);
}

pub proof fn lemma_without_unique<K, V>(s: Seq<(K, V)>, k: K)
    requires
        unique_keys(s),
    ensures
        unique_keys(without(s, k)),
    decreases s.len(),
{
    if s.len() > 0 {
        let d = s.drop_last();
        assert(unique_keys(d));
        lemma_without_unique(d, k);
        lemma_without_keys(d, k);
        if s.last().0 != k {
            let w = without(d, k);
            assert forall|i: int| 0 <= i < w.len() implies w[i].0 != s.last().0 by {
                assert(occurs(d, w[i]));
                let j = choose|j: int| 0 <= j < d.len() && d[j] == w[i];
                assert(s[j] == d[j]);
            }
        }
    }
}

} // verus!
