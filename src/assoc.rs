//! Association lists with unique keys, seen as finite maps.
use vstd::prelude::*;

verus! {

/// The map that a list of pairs describes, later pairs overriding earlier
/// ones.
pub open spec fn assoc_map<K, V>(s: Seq<(K, V)>) -> Map<K, V>
    decreases s.len(),
{
    if s.len() == 0 {
        Map::empty()
    } else {
        assoc_map(s.drop_last()).insert(s.last().0, s.last().1)
    }
}

pub open spec fn keys_unique<K, V>(s: Seq<(K, V)>) -> bool {
    forall|i: int, j: int| 0 <= i < j < s.len() ==> s[i].0 != s[j].0
}

pub proof fn lemma_assoc_lookup<K, V>(s: Seq<(K, V)>, i: int)
    requires
        keys_unique(s),
        0 <= i < s.len(),
    ensures
        assoc_map(s).contains_key(s[i].0),
        assoc_map(s)[s[i].0] == s[i].1,
    decreases s.len(),
{
    if i < s.len() - 1 {
        let t = s.drop_last();
        assert(keys_unique(t));
        assert(t[i] == s[i]);
        lemma_assoc_lookup(t, i);
        assert(s[i].0 != s[s.len() - 1].0);
    }
}

pub proof fn lemma_assoc_domain<K, V>(s: Seq<(K, V)>, k: K)
    requires
        assoc_map(s).contains_key(k),
    ensures
        exists|i: int| 0 <= i < s.len() && s[i].0 == k,
    decreases s.len(),
{
    if s.len() > 0 && s.last().0 != k {
        let t = s.drop_last();
        lemma_assoc_domain(t, k);
        let i = choose|i: int| 0 <= i < t.len() && t[i].0 == k;
        assert(s[i].0 == k);
    }
}

pub proof fn lemma_assoc_finite<K, V>(s: Seq<(K, V)>)
    ensures
        assoc_map(s).dom().finite(),
        keys_unique(s) ==> assoc_map(s).dom().len() == s.len(),
    decreases s.len(),
{
    if s.len() > 0 {
        let t = s.drop_last();
        lemma_assoc_finite(t);
        if keys_unique(s) {
            assert(keys_unique(t));
            if assoc_map(t).contains_key(s.last().0) {
                lemma_assoc_domain(t, s.last().0);
                let i = choose|i: int| 0 <= i < t.len() && t[i].0 == s.last().0;
                assert(s[i].0 == s[s.len() - 1].0);
            }
        }
    }
}

/// Appending a pair whose key is new keeps the keys unique.
pub proof fn lemma_assoc_push<K, V>(s: Seq<(K, V)>, k: K, v: V)
    requires
        keys_unique(s),
        !assoc_map(s).contains_key(k),
    ensures
        keys_unique(s.push((k, v))),
        assoc_map(s.push((k, v))) == assoc_map(s).insert(k, v),
{
    let u = s.push((k, v));
    assert(u.drop_last() == s);
    assert forall|a: int, b: int| 0 <= a < b < u.len() implies u[a].0 != u[b].0 by {
        if b == s.len() {
            lemma_assoc_lookup(s, a);
        }
    }
}

pub proof fn lemma_submap_both_ways<K, V>(a: Map<K, V>, b: Map<K, V>)
    requires
        a.submap_of(b),
        b.submap_of(a),
    ensures
        a == b,
{
    assert forall|k: K| a.dom().contains(k) <==> b.dom().contains(k) by {
        if a.dom().contains(k) && b.dom().contains(k) {
        }
    }
    assert forall|k: K| a.dom().contains(k) implies a[k] == b[k] by {
        if a.dom().contains(k) && b.dom().contains(k) {
        }
    }
    assert(a =~= b);
}

} // verus!

verus! {

/// The map of a concatenation: the pairs of `b` win over those of `a`.
pub proof fn lemma_assoc_concat<K, V>(a: Seq<(K, V)>, b: Seq<(K, V)>)
    ensures
        assoc_map(a + b) == assoc_map(a).union_prefer_right(assoc_map(b)),
    decreases b.len(),
{
    if b.len() == 0 {
        assert(a + b =~= a);
        assert(assoc_map(a).union_prefer_right(Map::empty()) =~= assoc_map(a));
    } else {
        lemma_assoc_concat(a, b.drop_last());
        assert((a + b).drop_last() =~= a + b.drop_last());
        assert(assoc_map(a + b) =~= assoc_map(a).union_prefer_right(assoc_map(b)));
    }
}

} // verus!
