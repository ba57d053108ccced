//! Maps keyed by strings, each key at most once, and sets of strings.
use vstd::prelude::*;
use crate::assoc::{
    assoc_map, keys_unique, lemma_assoc_concat, lemma_assoc_domain, lemma_assoc_finite,
    lemma_assoc_lookup, lemma_assoc_push, lemma_submap_both_ways,
};
use crate::kernel::skip;

verus! {

/// A map from strings to values, each key at most once.
#[derive(Debug)]
pub struct StrMap<V: View> {
    entries: Vec<(String, V)>,
}

pub open spec fn str_pair_view<V: View>(e: (String, V)) -> (Seq<char>, V::V) {
    (e.0@, e.1@)
}

pub open spec fn str_pairs<V: View>(s: Seq<(String, V)>) -> Seq<(Seq<char>, V::V)> {
    s.map_values(|e: (String, V)| str_pair_view(e))
}

impl<V: View> View for StrMap<V> {
    type V = Map<Seq<char>, V::V>;

    closed spec fn view(&self) -> Map<Seq<char>, V::V> {
        assoc_map(str_pairs(self.entries@))
    }
}

/// Whether the map `m` holds the pair `p`.
pub open spec fn agrees<K, V>(m: Map<K, V>, p: (K, V)) -> bool {
    m.contains_key(p.0) && m[p.0] == p.1
}

/// Whether `key` is among the keys of `entries`.
fn has_key<V: View>(entries: &Vec<(String, V)>, key: &String) -> (r: Option<usize>)
    ensures
        match r {
            Some(i) => i < entries@.len() && entries@[i as int].0@ == key@,
            None => !assoc_map(str_pairs(entries@)).contains_key(key@),
        },
{
    let mut i: usize = 0;
    while i < entries.len()
        invariant
            i <= entries@.len(),
            forall|j: int| 0 <= j < i ==> entries@[j].0@ != key@,
        decreases entries@.len() - i,
    {
        if entries[i].0 == *key {
            return Some(i);
        }
        i = i + 1;
    }
    proof {
        if assoc_map(str_pairs(entries@)).contains_key(key@) {
            lemma_assoc_domain(str_pairs(entries@), key@);
            let j = choose|j: int| 0 <= j < str_pairs(entries@).len() && str_pairs(entries@)[j].0 == key@;
            assert(entries@[j].0@ == key@);
        }
    }
    None
}

impl<V: View> StrMap<V> {
    #[verifier::type_invariant]
    closed spec fn wf(&self) -> bool {
        keys_unique(str_pairs(self.entries@))
    }

    pub fn new() -> (r: StrMap<V>)
        ensures
            r@ == Map::<Seq<char>, V::V>::empty(),
    {
        let r = StrMap { entries: Vec::new() };
        assert(str_pairs(r.entries@) =~= Seq::empty());
        r
    }

    /// The map that the pairs describe, later pairs winning over earlier
    /// ones with the same key.
    pub fn from_pairs(pairs: Vec<(String, V)>) -> (r: StrMap<V>)
        ensures
            r@ == assoc_map(str_pairs(pairs@)),
    {
        let ghost all = str_pairs(pairs@);
        let mut rest = pairs;
        let mut out: Vec<(String, V)> = Vec::new();
        assert(str_pairs(out@) =~= Seq::empty());
        assert(skip(all, all.len()) =~= Seq::empty());
        while rest.len() > 0
            invariant
                rest@.len() <= all.len(),
                str_pairs(rest@) == all.take(rest@.len() as int),
                keys_unique(str_pairs(out@)),
                assoc_map(str_pairs(out@)) == assoc_map(skip(all, rest@.len() as nat)),
            decreases rest@.len(),
        {
            let ghost n = rest@.len();
            let ghost before = str_pairs(out@);
            let ghost old_rest = rest@;
            let e = rest.pop().unwrap();
            let ghost ev = str_pair_view(e);
            proof {
                assert(str_pairs(rest@) =~= all.take(n - 1));
                assert(e == old_rest[n - 1]);
                assert(str_pairs(old_rest)[n - 1] == all[n - 1]);
                assert(ev == all[n - 1]);
                assert(skip(all, (n - 1) as nat) =~= seq![ev] + skip(all, n as nat));
                lemma_assoc_concat(seq![ev], skip(all, n as nat));
                assert(seq![ev].drop_last() =~= Seq::<(Seq<char>, V::V)>::empty());
                assert(assoc_map(Seq::<(Seq<char>, V::V)>::empty()) == Map::<Seq<char>, V::V>::empty());
                assert(assoc_map(seq![ev]) =~= Map::empty().insert(ev.0, ev.1));
            }
            match has_key(&out, &e.0) {
                Some(i) => {
                    proof {
                        lemma_assoc_lookup(before, i as int);
                        assert(before[i as int].0 == ev.0);
                        assert(Map::empty().insert(ev.0, ev.1).union_prefer_right(assoc_map(before))
                            =~= assoc_map(before));
                    }
                },
                None => {
                    proof {
                        lemma_assoc_push(before, ev.0, ev.1);
                        assert(Map::empty().insert(ev.0, ev.1).union_prefer_right(assoc_map(before))
                            =~= assoc_map(before).insert(ev.0, ev.1));
                    }
                    out.push(e);
                    assert(str_pairs(out@) =~= before.push(ev));
                },
            }
        }
        assert(skip(all, 0) =~= all);
        StrMap { entries: out }
    }

    /// The number of keys.
    pub fn len(&self) -> (r: usize)
        ensures
            r == self@.len(),
    {
        proof {
            use_type_invariant(self);
            lemma_assoc_finite(str_pairs(self.entries@));
        }
        self.entries.len()
    }

    /// Whether every key of `other` is in `self`, with a value that `same`
    /// finds equal.
    pub fn includes_by<F: Fn(&V, &V) -> bool>(&self, other: &StrMap<V>, same: F) -> (r: bool)
        requires
            forall|a: &V, b: &V| #[trigger] same.requires((a, b)),
            forall|a: &V, b: &V, x: bool| #[trigger] same.ensures((a, b), x) ==> x == (a@ == b@),
        ensures
            r == other@.submap_of(self@),
    {
        proof {
            use_type_invariant(self);
            use_type_invariant(other);
        }
        let ghost ps = str_pairs(other.entries@);
        let ghost mine = str_pairs(self.entries@);
        let mut i: usize = 0;
        while i < other.entries.len()
            invariant
                i <= other.entries@.len(),
                ps == str_pairs(other.entries@),
                mine == str_pairs(self.entries@),
                keys_unique(ps),
                keys_unique(mine),
                forall|a: &V, b: &V| #[trigger] same.requires((a, b)),
                forall|a: &V, b: &V, x: bool| #[trigger] same.ensures((a, b), x) ==> x == (a@ == b@),
                forall|j: int| 0 <= j < i ==> #[trigger] agrees(self@, ps[j]),
            decreases other.entries@.len() - i,
        {
            assert(ps[i as int] == str_pair_view(other.entries@[i as int]));
            proof {
                lemma_assoc_lookup(ps, i as int);
            }
            match has_key(&self.entries, &other.entries[i].0) {
                Some(j) => {
                    proof {
                        lemma_assoc_lookup(mine, j as int);
                        assert(mine[j as int] == str_pair_view(self.entries@[j as int]));
                    }
                    let x = same(&self.entries[j].1, &other.entries[i].1);
                    if !x {
                        return false;
                    }
                    assert(self.entries@[j as int].1@ == other.entries@[i as int].1@);
                    assert(self@.contains_key(ps[i as int].0) && self@[ps[i as int].0] == ps[i as int].1);
                    assert(agrees(self@, ps[i as int]));
                },
                None => {
                    return false;
                },
            }
            i = i + 1;
        }
        proof {
            assert forall|k: Seq<char>| #[trigger] other@.dom().contains(k) implies self@.dom().contains(k) && other@[k] == self@[k] by {
                lemma_assoc_domain(ps, k);
                let j = choose|j: int| 0 <= j < ps.len() && ps[j].0 == k;
                lemma_assoc_lookup(ps, j);
                assert(agrees(self@, ps[j]));
            }
        }
        true
    }

    /// Whether `self` and `other` hold the same keys with values that
    /// `same` finds equal.
    pub fn same_by<F: Fn(&V, &V) -> bool>(&self, other: &StrMap<V>, same: F) -> (r: bool)
        requires
            forall|a: &V, b: &V| #[trigger] same.requires((a, b)),
            forall|a: &V, b: &V, x: bool| #[trigger] same.ensures((a, b), x) ==> x == (a@ == b@),
        ensures
            r == (self@ == other@),
    {
        let r = self.includes_by(other, &same) && other.includes_by(self, &same);
        proof {
            if r {
                lemma_submap_both_ways(self@, other@);
            }
        }
        r
    }
}

/// A set of strings.
#[derive(Debug)]
pub struct CapValues {
    items: StrMap<()>,
}

impl View for CapValues {
    type V = Set<Seq<char>>;

    closed spec fn view(&self) -> Set<Seq<char>> {
        self.items@.dom()
    }
}

fn unit_same(a: &(), b: &()) -> (r: bool)
    ensures
        r == (a@ == b@),
{
    true
}

impl CapValues {
    pub fn new() -> (r: CapValues)
        ensures
            r@ == Set::<Seq<char>>::empty(),
    {
        let r = CapValues { items: StrMap::new() };
        assert(r@ =~= Set::empty());
        r
    }

    /// The set of the given strings.
    pub fn from_strings(v: Vec<String>) -> (r: CapValues)
        ensures
            r@ == v@.map_values(|s: String| s@).to_set(),
    {
        let ghost sv = v@.map_values(|s: String| s@);
        let mut pairs: Vec<(String, ())> = Vec::new();
        let mut v = v;
        let ghost all = v@;
        while v.len() > 0
            invariant
                v@.len() <= all.len(),
                v@ == all.take(v@.len() as int),
                pairs@.len() + v@.len() == all.len(),
                forall|j: int| 0 <= j < pairs@.len() ==> #[trigger] pairs@[j].0 == all[all.len() - 1 - j],
            decreases v@.len(),
        {
            let ghost n = v@.len();
            let s = v.pop().unwrap();
            assert(v@ =~= all.take(n - 1));
            pairs.push((s, ()));
        }
        let r = StrMap::from_pairs(pairs);
        let ghost ps = str_pairs(pairs@);
        proof {
            assert forall|k: Seq<char>| #[trigger] r@.dom().contains(k) <==> sv.to_set().contains(k) by {
                if r@.dom().contains(k) {
                    lemma_assoc_domain(ps, k);
                    let j = choose|j: int| 0 <= j < ps.len() && ps[j].0 == k;
                    assert(sv[all.len() - 1 - j] == k);
                }
                if sv.to_set().contains(k) {
                    let i = choose|i: int| 0 <= i < sv.len() && sv[i] == k;
                    let j = all.len() - 1 - i;
                    assert(ps[j].0 == k);
                    lemma_assoc_lookup_any(ps, j);
                }
            }
        }
        let out = CapValues { items: r };
        assert(out@ =~= sv.to_set());
        out
    }

    pub fn len(&self) -> (r: usize)
        ensures
            r == self@.len(),
    {
        self.items.len()
    }
}

/// Any key of the pairs, unique or not, is a key of their map.
pub proof fn lemma_assoc_lookup_any<K, V>(s: Seq<(K, V)>, i: int)
    requires
        0 <= i < s.len(),
    ensures
        assoc_map(s).contains_key(s[i].0),
    decreases s.len(),
{
    if i < s.len() - 1 {
        lemma_assoc_lookup_any(s.drop_last(), i);
    }
}

impl PartialEq for CapValues {
    fn eq(&self, other: &CapValues) -> (r: bool) {
        let r = self.items.same_by(&other.items, unit_same);
        assert(r == (self@ == other@)) by {
            if self@ == other@ {
                assert(self.items@ =~= other.items@);
            }
        }
        r
    }
}

impl vstd::std_specs::cmp::PartialEqSpecImpl for CapValues {
    open spec fn obeys_eq_spec() -> bool {
        true
    }

    open spec fn eq_spec(&self, other: &CapValues) -> bool {
        self@ == other@
    }
}

impl Eq for CapValues {
}

fn cap_values_same(a: &CapValues, b: &CapValues) -> (r: bool)
    ensures
        r == (a@ == b@),
{
    a == b
}

/// The parameters of a capability: names, each with a set of values.
pub type CapParams = StrMap<CapValues>;

/// Capabilities: names, each with its parameters.
pub type BundleCaps = StrMap<CapParams>;

impl PartialEq for StrMap<CapValues> {
    fn eq(&self, other: &StrMap<CapValues>) -> (r: bool) {
        self.same_by(other, cap_values_same)
    }
}

impl vstd::std_specs::cmp::PartialEqSpecImpl for StrMap<CapValues> {
    open spec fn obeys_eq_spec() -> bool {
        true
    }

    open spec fn eq_spec(&self, other: &StrMap<CapValues>) -> bool {
        self@ == other@
    }
}

impl Eq for StrMap<CapValues> {
}

fn cap_params_same(a: &CapParams, b: &CapParams) -> (r: bool)
    ensures
        r == (a@ == b@),
{
    a == b
}

impl PartialEq for StrMap<CapParams> {
    fn eq(&self, other: &StrMap<CapParams>) -> (r: bool) {
        self.same_by(other, cap_params_same)
    }
}

impl vstd::std_specs::cmp::PartialEqSpecImpl for StrMap<CapParams> {
    open spec fn obeys_eq_spec() -> bool {
        true
    }

    open spec fn eq_spec(&self, other: &StrMap<CapParams>) -> bool {
        self@ == other@
    }
}

impl Eq for StrMap<CapParams> {
}

} // verus!
