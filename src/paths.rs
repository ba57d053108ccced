//! Repository paths as sequences of components, and the path arithmetic
//! that submodule expansions need.
use vstd::prelude::*;
use crate::kernel::bytes_eq;

verus! {

/// A path in a repository: one or more non-empty components.
#[derive(Debug, PartialEq, Eq, Hash)]
pub struct MPath {
    components: Vec<Vec<u8>>,
}

pub open spec fn components_view(v: Seq<Vec<u8>>) -> Seq<Seq<u8>> {
    v.map_values(|c: Vec<u8>| c@)
}

/// Components that make a path: at least one, none of them empty.
pub open spec fn valid_components(p: Seq<Seq<u8>>) -> bool {
    p.len() > 0 && forall|i: int| 0 <= i < p.len() ==> (#[trigger] p[i]).len() > 0
}

/// `p` is `q` or lies under it.
pub open spec fn is_prefix(p: Seq<Seq<u8>>, q: Seq<Seq<u8>>) -> bool {
    p.len() <= q.len() && q.take(p.len() as int) == p
}

/// The name of the metadata file of a submodule expanded as `name`:
/// `.<prefix>-<name>`.
pub open spec fn metadata_basename(name: Seq<u8>, prefix: Seq<u8>) -> Seq<u8> {
    seq![46u8] + prefix + seq![45u8] + name
}

/// The metadata file of the expansion at `p`: a sibling of `p`.
pub open spec fn metadata_path(p: Seq<Seq<u8>>, prefix: Seq<u8>) -> Seq<Seq<u8>> {
    p.drop_last().push(metadata_basename(p.last(), prefix))
}

impl View for MPath {
    type V = Seq<Seq<u8>>;

    closed spec fn view(&self) -> Seq<Seq<u8>> {
        components_view(self.components@)
    }
}

impl MPath {
    #[verifier::type_invariant]
    closed spec fn wf(&self) -> bool {
        valid_components(self@)
    }

    /// The path made of `components`, if they make one.
    pub fn new(components: Vec<Vec<u8>>) -> (r: Option<MPath>)
        ensures
            r is Some <==> valid_components(components_view(components@)),
            r matches Some(p) ==> p@ == components_view(components@),
    {
        if components.len() == 0 {
            return None;
        }
        let mut i: usize = 0;
        while i < components.len()
            invariant
                i <= components@.len(),
                forall|j: int| 0 <= j < i ==> (#[trigger] components_view(components@)[j]).len() > 0,
            decreases components@.len() - i,
        {
            if components[i].len() == 0 {
                assert(components_view(components@)[i as int].len() == 0);
                return None;
            }
            i = i + 1;
        }
        Some(MPath { components })
    }

    pub fn components(&self) -> (r: &Vec<Vec<u8>>)
        ensures
            components_view(r@) == self@,
    {
        &self.components
    }

    /// Whether `self` is `other` or lies under it.
    pub fn starts_with(&self, other: &MPath) -> (r: bool)
        ensures
            r == is_prefix(other@, self@),
    {
        let ghost p = other@;
        let ghost q = self@;
        if other.components.len() > self.components.len() {
            return false;
        }
        let mut i: usize = 0;
        while i < other.components.len()
            invariant
                p == other@,
                q == self@,
                p.len() <= q.len(),
                i <= p.len(),
                q.take(i as int) == p.take(i as int),
            decreases p.len() - i,
        {
            assert(p[i as int] == other.components@[i as int]@);
            assert(q[i as int] == self.components@[i as int]@);
            if !bytes_eq(self.components[i].as_slice(), other.components[i].as_slice()) {
                assert(q.take(p.len() as int)[i as int] != p[i as int]);
                return false;
            }
            assert(q.take(i + 1) =~= q.take(i as int).push(q[i as int]));
            assert(p.take(i + 1) =~= p.take(i as int).push(p[i as int]));
            i = i + 1;
        }
        assert(p.take(i as int) =~= p);
        true
    }

    /// Whether the two paths are the same.
    pub fn same(&self, other: &MPath) -> (r: bool)
        ensures
            r == (self@ == other@),
    {
        let r = self.components.len() == other.components.len() && self.starts_with(other);
        proof {
            assert(self@.take(other@.len() as int) =~= self@ || self@.len() != other@.len());
            assert(self@.len() == self.components@.len());
            assert(other@.len() == other.components@.len());
        }
        r
    }

    /// What is left of `self` under `prefix`, where `prefix` is a strict
    /// prefix of it.
    pub fn strip_prefix(&self, prefix: &MPath) -> (r: Option<MPath>)
        ensures
            r is Some <==> (is_prefix(prefix@, self@) && prefix@.len() < self@.len()),
            r matches Some(rest) ==> rest@ == self@.skip(prefix@.len() as int),
    {
        proof {
            use_type_invariant(self);
        }
        if prefix.components.len() < self.components.len() && self.starts_with(prefix) {
            let mut rest: Vec<Vec<u8>> = Vec::new();
            let mut i: usize = prefix.components.len();
            let ghost start = i as int;
            while i < self.components.len()
                invariant
                    0 <= start <= i <= self.components@.len(),
                    self@.len() == self.components@.len(),
                    components_view(rest@) == self@.subrange(start, i as int),
                decreases self.components@.len() - i,
            {
                let ghost before = components_view(rest@);
                let c = self.components[i].clone();
                assert(c@ == self@[i as int]);
                rest.push(c);
                assert(components_view(rest@) =~= before.push(c@));
                assert(self@.subrange(start, i + 1) =~= self@.subrange(start, i as int).push(self@[i as int]));
                i = i + 1;
            }
            assert(components_view(rest@) =~= self@.skip(prefix@.len() as int));
            let r = MPath { components: rest };
            Some(r)
        } else {
            None
        }
    }

    /// The metadata file of the expansion at `self`.
    pub fn metadata_path(&self, prefix: &[u8]) -> (r: MPath)
        ensures
            r@ == metadata_path(self@, prefix@),
    {
        proof {
            use_type_invariant(self);
        }
        let n = self.components.len();
        let mut comps: Vec<Vec<u8>> = Vec::new();
        let mut i: usize = 0;
        while i + 1 < n
            invariant
                n == self.components@.len(),
                n > 0,
                i + 1 <= n,
                components_view(comps@) == self@.take(i as int),
            decreases n - i,
        {
            let c = self.components[i].clone();
            assert(c@ == self@[i as int]);
            let ghost before = components_view(comps@);
            comps.push(c);
            assert(components_view(comps@) =~= before.push(c@));
            assert(self@.take(i + 1) =~= self@.take(i as int).push(self@[i as int]));
            i = i + 1;
        }
        let name = metadata_name(self.components[n - 1].as_slice(), prefix);
        let ghost before = components_view(comps@);
        comps.push(name);
        assert(components_view(comps@) =~= metadata_path(self@, prefix@));
        let r = MPath { components: comps };
        r
    }
}

impl Clone for MPath {
    fn clone(&self) -> (r: MPath)
        ensures
            r@ == self@,
    {
        proof {
            use_type_invariant(self);
        }
        let mut comps: Vec<Vec<u8>> = Vec::new();
        let mut i: usize = 0;
        while i < self.components.len()
            invariant
                i <= self.components@.len(),
                components_view(comps@) == self@.take(i as int),
            decreases self.components@.len() - i,
        {
            let c = self.components[i].clone();
            assert(c@ == self@[i as int]);
            let ghost before = components_view(comps@);
            comps.push(c);
            assert(components_view(comps@) =~= before.push(c@));
            assert(self@.take(i + 1) =~= self@.take(i as int).push(self@[i as int]));
            i = i + 1;
        }
        assert(components_view(comps@) =~= self@);
        MPath { components: comps }
    }
}

/// The name of the metadata file of a submodule expanded as `name`.
pub fn metadata_name(name: &[u8], prefix: &[u8]) -> (r: Vec<u8>)
    ensures
        r@ == metadata_basename(name@, prefix@),
{
    let mut out: Vec<u8> = Vec::new();
    out.push(46);
    let mut i: usize = 0;
    while i < prefix.len()
        invariant
            i <= prefix@.len(),
            out@ == seq![46u8] + prefix@.take(i as int),
        decreases prefix@.len() - i,
    {
        out.push(prefix[i]);
        assert(out@ =~= seq![46u8] + prefix@.take(i + 1));
        i = i + 1;
    }
    out.push(45);
    let mut j: usize = 0;
    assert(out@ =~= seq![46u8] + prefix@ + seq![45u8] + name@.take(0));
    while j < name.len()
        invariant
            j <= name@.len(),
            out@ == seq![46u8] + prefix@ + seq![45u8] + name@.take(j as int),
        decreases name@.len() - j,
    {
        out.push(name[j]);
        assert(out@ =~= seq![46u8] + prefix@ + seq![45u8] + name@.take(j + 1));
        j = j + 1;
    }
    assert(name@.take(j as int) =~= name@);
    out
}

} // verus!
