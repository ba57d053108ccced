//! The parameters of a command: a map from byte-string names to byte-string
//! values.
use vstd::prelude::*;
use crate::assoc::{assoc_map, keys_unique, lemma_assoc_domain, lemma_assoc_finite, lemma_assoc_lookup, lemma_assoc_push, lemma_submap_both_ways};
use crate::kernel::bytes_eq;

verus! {

/// A map from parameter names to values, each name at most once.
#[derive(Debug)]
pub struct ParamMap {
    entries: Vec<(Vec<u8>, Vec<u8>)>,
}

pub open spec fn pair_view(e: (Vec<u8>, Vec<u8>)) -> (Seq<u8>, Seq<u8>) {
    (e.0@, e.1@)
}

impl ParamMap {
    pub closed spec fn pairs(&self) -> Seq<(Seq<u8>, Seq<u8>)> {
        self.entries@.map_values(|e: (Vec<u8>, Vec<u8>)| pair_view(e))
    }

    #[verifier::type_invariant]
    closed spec fn wf(&self) -> bool {
        keys_unique(self.pairs())
    }

    pub fn new() -> (r: ParamMap)
        ensures
            r@ == Map::<Seq<u8>, Seq<u8>>::empty(),
    {
        let r = ParamMap { entries: Vec::new() };
        assert(r.pairs() =~= Seq::empty());
        r
    }

    /// Where `key` stands among the entries, if it does.
    fn find(&self, key: &[u8]) -> (r: Option<usize>)
        ensures
            match r {
                Some(i) => i < self.pairs().len() && self.pairs()[i as int].0 == key@,
                None => !self@.contains_key(key@),
            },
    {
        proof {
            use_type_invariant(self);
        }
        let mut i: usize = 0;
        while i < self.entries.len()
            invariant
                i <= self.entries@.len(),
                self.pairs().len() == self.entries@.len(),
                forall|j: int| 0 <= j < i ==> self.pairs()[j].0 != key@,
            decreases self.entries@.len() - i,
        {
            if bytes_eq(self.entries[i].0.as_slice(), key) {
                return Some(i);
            }
            i = i + 1;
        }
        proof {
            if self@.contains_key(key@) {
                lemma_assoc_domain(self.pairs(), key@);
            }
        }
        None
    }

    /// The value of `key`, if the map has one.
    pub fn get(&self, key: &[u8]) -> (r: Option<&Vec<u8>>)
        ensures
            match r {
                Some(v) => self@.contains_key(key@) && v@ == self@[key@],
                None => !self@.contains_key(key@),
            },
    {
        proof {
            use_type_invariant(self);
        }
        match self.find(key) {
            Some(i) => {
                proof {
                    lemma_assoc_lookup(self.pairs(), i as int);
                }
                Some(&self.entries[i].1)
            },
            None => None,
        }
    }

    /// Sets `key` to `value`, replacing any earlier value.
    pub fn insert(&mut self, key: Vec<u8>, value: Vec<u8>)
        ensures
            final(self)@ == old(self)@.insert(key@, value@),
    {
        proof {
            use_type_invariant(&*self);
        }
        let ghost s = self.pairs();
        let mut out: Vec<(Vec<u8>, Vec<u8>)> = Vec::new();
        let mut i: usize = 0;
        while i < self.entries.len()
            invariant
                i <= self.entries@.len(),
                s == self.pairs(),
                s.len() == self.entries@.len(),
                keys_unique(s),
                keys_unique(out@.map_values(|e: (Vec<u8>, Vec<u8>)| pair_view(e))),
                assoc_map(out@.map_values(|e: (Vec<u8>, Vec<u8>)| pair_view(e)))
                    == assoc_map(s.take(i as int)).remove(key@),
            decreases self.entries@.len() - i,
        {
            let ghost o = out@.map_values(|e: (Vec<u8>, Vec<u8>)| pair_view(e));
            assert(s.take(i + 1).drop_last() == s.take(i as int));
            assert(s[i as int] == pair_view(self.entries@[i as int]));
            if !bytes_eq(self.entries[i].0.as_slice(), key.as_slice()) {
                let k = self.entries[i].0.clone();
                let v = self.entries[i].1.clone();
                proof {
                    assert(k@ == s[i as int].0);
                    assert(v@ == s[i as int].1);
                    if assoc_map(o).contains_key(k@) {
                        assert(assoc_map(s.take(i as int)).contains_key(k@));
                        lemma_assoc_domain(s.take(i as int), k@);
                        let j = choose|j: int| 0 <= j < i && s.take(i as int)[j].0 == k@;
                        assert(s[j].0 == s[i as int].0);
                    }
                    lemma_assoc_push(o, k@, v@);
                }
                out.push((k, v));
                proof {
                    assert(out@.map_values(|e: (Vec<u8>, Vec<u8>)| pair_view(e)) =~= o.push((k@, v@)));
                    assert(assoc_map(o.push((k@, v@))) =~= assoc_map(s.take(i + 1)).remove(key@));
                }
            } else {
                assert(assoc_map(o) =~= assoc_map(s.take(i + 1)).remove(key@));
            }
            i = i + 1;
        }
        let ghost o = out@.map_values(|e: (Vec<u8>, Vec<u8>)| pair_view(e));
        let ghost kv = key@;
        let ghost vv = value@;
        proof {
            assert(s.take(i as int) == s);
            lemma_assoc_push(o, kv, vv);
        }
        out.push((key, value));
        assert(out@.map_values(|e: (Vec<u8>, Vec<u8>)| pair_view(e)) =~= o.push((kv, vv)));
        self.entries = out;
        assert(self.pairs() =~= o.push((kv, vv)));
        assert(self@ =~= old(self)@.insert(kv, vv));
    }

    /// The number of parameters.
    pub fn len(&self) -> (r: usize)
        ensures
            r == self@.len(),
    {
        proof {
            use_type_invariant(self);
            lemma_assoc_finite(self.pairs());
        }
        self.entries.len()
    }

    /// Adds every parameter of `other`, whose values win over those of
    /// `self`.
    pub fn extend(&mut self, other: ParamMap)
        ensures
            final(self)@ == old(self)@.union_prefer_right(other@),
    {
        proof {
            use_type_invariant(&other);
        }
        let ghost start = self@;
        let ghost ps = other.pairs();
        let mut i: usize = 0;
        while i < other.entries.len()
            invariant
                i <= other.entries@.len(),
                ps == other.pairs(),
                ps.len() == other.entries@.len(),
                self@ == start.union_prefer_right(assoc_map(ps.take(i as int))),
            decreases other.entries@.len() - i,
        {
            let k = other.entries[i].0.clone();
            let v = other.entries[i].1.clone();
            let ghost before = self@;
            self.insert(k, v);
            proof {
                assert(ps.take(i + 1).drop_last() == ps.take(i as int));
                assert(ps[i as int] == pair_view(other.entries@[i as int]));
                assert(self@ =~= start.union_prefer_right(assoc_map(ps.take(i + 1))));
            }
            i = i + 1;
        }
        assert(ps.take(i as int) == ps);
    }

    /// Whether every parameter of `other` is in `self` with the same value.
    pub fn includes(&self, other: &ParamMap) -> (r: bool)
        ensures
            r == other@.submap_of(self@),
    {
        proof {
            use_type_invariant(other);
        }
        let ghost ps = other.pairs();
        let mut i: usize = 0;
        while i < other.entries.len()
            invariant
                i <= other.entries@.len(),
                ps == other.pairs(),
                ps.len() == other.entries@.len(),
                keys_unique(ps),
                forall|j: int| 0 <= j < i ==> #[trigger] self@.contains_key(ps[j].0) && self@[ps[j].0] == ps[j].1,
            decreases other.entries@.len() - i,
        {
            assert(ps[i as int] == pair_view(other.entries@[i as int]));
            match self.get(other.entries[i].0.as_slice()) {
                Some(v) => {
                    if !bytes_eq(v.as_slice(), other.entries[i].1.as_slice()) {
                        proof {
                            lemma_assoc_lookup(ps, i as int);
                        }
                        return false;
                    }
                },
                None => {
                    proof {
                        lemma_assoc_lookup(ps, i as int);
                    }
                    return false;
                },
            }
            i = i + 1;
        }
        proof {
            assert forall|k: Seq<u8>| #[trigger] other@.dom().contains(k) implies self@.dom().contains(k) && other@[k] == self@[k] by {
                lemma_assoc_domain(ps, k);
                let j = choose|j: int| 0 <= j < ps.len() && ps[j].0 == k;
                lemma_assoc_lookup(ps, j);
            }
        }
        true
    }
}

impl View for ParamMap {
    type V = Map<Seq<u8>, Seq<u8>>;

    closed spec fn view(&self) -> Map<Seq<u8>, Seq<u8>> {
        assoc_map(self.pairs())
    }
}

impl PartialEq for ParamMap {
    fn eq(&self, other: &ParamMap) -> (r: bool) {
        let r = self.includes(other) && other.includes(self);
        proof {
            if r {
                lemma_submap_both_ways(self@, other@);
            }
        }
        r
    }
}

impl vstd::std_specs::cmp::PartialEqSpecImpl for ParamMap {
    open spec fn obeys_eq_spec() -> bool {
        true
    }

    open spec fn eq_spec(&self, other: &ParamMap) -> bool {
        self@ == other@
    }
}

impl Eq for ParamMap {
}

} // verus!
