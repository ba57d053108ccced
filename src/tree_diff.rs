//! Comparing one directory of an expansion with the directory of the
//! sub-repository that it expands: what must match, what is left to
//! compare further down, and what makes the expansion invalid.
use vstd::prelude::*;
use crate::assoc::{assoc_map, keys_unique, lemma_assoc_domain, lemma_assoc_lookup};
use crate::expansion::ValidationError;
use crate::kernel::bytes_eq;
use crate::paths::{metadata_basename, metadata_name};

verus! {

/// The kind of a file.
#[derive(Debug, Clone, Copy, PartialEq, Eq, Structural)]
pub enum FileType {
    Regular,
    Executable,
    Symlink,
    /// A submodule: the file holds the hash of a commit of another repository.
    GitSubmodule,
}

/// An entry of a tree: a directory by its tree id, or a file by its
/// content id and kind.
#[derive(Debug, Clone, PartialEq, Eq)]
pub enum TreeEntry {
    Directory(Vec<u8>),
    File(Vec<u8>, FileType),
}

pub enum SpecTreeEntry {
    Directory(Seq<u8>),
    File(Seq<u8>, FileType),
}

impl View for TreeEntry {
    type V = SpecTreeEntry;

    open spec fn view(&self) -> SpecTreeEntry {
        match self {
            TreeEntry::Directory(id) => SpecTreeEntry::Directory(id@),
            TreeEntry::File(id, t) => SpecTreeEntry::File(id@, *t),
        }
    }
}

pub type TreeView = Seq<(Seq<u8>, SpecTreeEntry)>;

pub open spec fn tree_view(t: Seq<(Vec<u8>, TreeEntry)>) -> TreeView {
    t.map_values(|e: (Vec<u8>, TreeEntry)| (e.0@, e.1@))
}

/// What is left to compare below a directory that differs on the two sides.
#[derive(Debug, Clone, PartialEq, Eq)]
pub enum Pending {
    /// A directory of the sub-repository and its expansion.
    Directory { name: Vec<u8>, expansion: Vec<u8>, submodule: Vec<u8> },
    /// A nested submodule: its expansion, the metadata file beside it, and
    /// the submodule file of the sub-repository that it expands.
    Submodule { name: Vec<u8>, expansion: Vec<u8>, metadata: Vec<u8>, submodule_file: Vec<u8> },
}

pub enum SpecPending {
    Directory { name: Seq<u8>, expansion: Seq<u8>, submodule: Seq<u8> },
    Submodule { name: Seq<u8>, expansion: Seq<u8>, metadata: Seq<u8>, submodule_file: Seq<u8> },
}

impl View for Pending {
    type V = SpecPending;

    open spec fn view(&self) -> SpecPending {
        match self {
            Pending::Directory { name, expansion, submodule } => SpecPending::Directory {
                name: name@,
                expansion: expansion@,
                submodule: submodule@,
            },
            Pending::Submodule { name, expansion, metadata, submodule_file } => SpecPending::Submodule {
                name: name@,
                expansion: expansion@,
                metadata: metadata@,
                submodule_file: submodule_file@,
            },
        }
    }
}

impl SpecPending {
    pub open spec fn name(self) -> Seq<u8> {
        match self {
            SpecPending::Directory { name, .. } => name,
            SpecPending::Submodule { name, .. } => name,
        }
    }
}

pub open spec fn is_submodule_file(e: SpecTreeEntry) -> bool {
    (e matches SpecTreeEntry::File(_, t) && t == FileType::GitSubmodule)
}

/// `n` is in the expansion `em` with another entry than in the
/// sub-repository `sm`, which has it too.
pub open spec fn matched(em: Map<Seq<u8>, SpecTreeEntry>, sm: Map<Seq<u8>, SpecTreeEntry>, n: Seq<u8>) -> bool {
    em.contains_key(n) && sm.contains_key(n) && em[n] != sm[n]
}

/// What an entry `n` of the expansion must be. Where the sub-repository
/// has another entry there, a directory: expanding a directory, or a
/// submodule whose metadata file is a file of the expansion only. Where
/// the sub-repository has nothing, the metadata file of such a submodule.
pub open spec fn name_ok(em: Map<Seq<u8>, SpecTreeEntry>, sm: Map<Seq<u8>, SpecTreeEntry>, prefix: Seq<u8>, n: Seq<u8>) -> bool {
    &&& matched(em, sm, n) ==> {
        &&& em[n] is Directory
        &&& (sm[n] is Directory || (is_submodule_file(sm[n])
            && em.contains_key(metadata_basename(n, prefix))
            && em[metadata_basename(n, prefix)] is File
            && !sm.contains_key(metadata_basename(n, prefix))))
    }
    &&& (em.contains_key(n) && !sm.contains_key(n)) ==> {
        &&& em[n] is File
        &&& exists|k: Seq<u8>| #[trigger] matched(em, sm, k) && is_submodule_file(sm[k]) && metadata_basename(k, prefix) == n
    }
}

/// The expansion `e` can expand the sub-repository's directory `s`, as far
/// as this level shows: everything that the sub-repository has, the
/// expansion has, and every entry of the expansion is accounted for.
pub open spec fn diff_ok(e: TreeView, s: TreeView, prefix: Seq<u8>) -> bool {
    let em = assoc_map(e);
    let sm = assoc_map(s);
    &&& forall|n: Seq<u8>| #[trigger] sm.contains_key(n) ==> em.contains_key(n)
    &&& forall|n: Seq<u8>| #[trigger] em.contains_key(n) ==> name_ok(em, sm, prefix, n)
}

/// What is left to compare below a matched entry.
pub open spec fn pending_ok(p: SpecPending, e: TreeView, s: TreeView, prefix: Seq<u8>) -> bool {
    let em = assoc_map(e);
    let sm = assoc_map(s);
    match p {
        SpecPending::Directory { name, expansion, submodule } => matched(em, sm, name)
            && em[name] == SpecTreeEntry::Directory(expansion)
            && sm[name] == SpecTreeEntry::Directory(submodule),
        SpecPending::Submodule { name, expansion, metadata, submodule_file } => matched(em, sm, name)
            && em[name] == SpecTreeEntry::Directory(expansion)
            && sm[name] == SpecTreeEntry::File(submodule_file, FileType::GitSubmodule)
            && (em[metadata_basename(name, prefix)] matches SpecTreeEntry::File(m, _) && m == metadata),
    }
}

/// The plan holds one item for each matched entry, and nothing else.
pub open spec fn plan_ok(plan: Seq<SpecPending>, e: TreeView, s: TreeView, prefix: Seq<u8>) -> bool {
    let em = assoc_map(e);
    let sm = assoc_map(s);
    &&& forall|i: int| 0 <= i < plan.len() ==> pending_ok(#[trigger] plan[i], e, s, prefix)
    &&& forall|i: int, j: int| 0 <= i < j < plan.len() ==> (#[trigger] plan[i]).name() != (#[trigger] plan[j]).name()
    &&& forall|n: Seq<u8>| #[trigger] matched(em, sm, n) ==> exists|i: int| 0 <= i < plan.len() && (#[trigger] plan[i]).name() == n
}

pub fn entry_same(a: &TreeEntry, b: &TreeEntry) -> (r: bool)
    ensures
        r == (a@ == b@),
{
    match (a, b) {
        (TreeEntry::Directory(x), TreeEntry::Directory(y)) => bytes_eq(x.as_slice(), y.as_slice()),
        (TreeEntry::File(x, s), TreeEntry::File(y, t)) => bytes_eq(x.as_slice(), y.as_slice()) && *s == *t,
        _ => false,
    }
}

/// Where `name` stands in the tree, if it does.
pub fn find_entry(t: &Vec<(Vec<u8>, TreeEntry)>, name: &[u8]) -> (r: Option<usize>)
    requires
        keys_unique(tree_view(t@)),
    ensures
        match r {
            Some(i) => i < t@.len() && t@[i as int].0@ == name@ && assoc_map(tree_view(t@)).contains_key(name@)
                && assoc_map(tree_view(t@))[name@] == t@[i as int].1@,
            None => !assoc_map(tree_view(t@)).contains_key(name@),
        },
{
    let ghost tv = tree_view(t@);
    let mut i: usize = 0;
    while i < t.len()
        invariant
            i <= t@.len(),
            tv == tree_view(t@),
            keys_unique(tv),
            forall|j: int| 0 <= j < i ==> tv[j].0 != name@,
        decreases t@.len() - i,
    {
        assert(tv[i as int] == (t@[i as int].0@, t@[i as int].1@));
        if bytes_eq(t[i].0.as_slice(), name) {
            proof {
                lemma_assoc_lookup(tv, i as int);
            }
            return Some(i);
        }
        i = i + 1;
    }
    proof {
        if assoc_map(tv).contains_key(name@) {
            lemma_assoc_domain(tv, name@);
        }
    }
    None
}

} // verus!

verus! {

/// Whether the file `n` of the expansion is the metadata file of a nested
/// submodule that the two trees show.
fn is_metadata_file(
    expansion: &Vec<(Vec<u8>, TreeEntry)>,
    submodule: &Vec<(Vec<u8>, TreeEntry)>,
    n: &[u8],
    prefix: &[u8],
) -> (r: bool)
    requires
        keys_unique(tree_view(expansion@)),
        keys_unique(tree_view(submodule@)),
    ensures
        r == exists|k: Seq<u8>| #[trigger] matched(assoc_map(tree_view(expansion@)), assoc_map(tree_view(submodule@)), k)
            && is_submodule_file(assoc_map(tree_view(submodule@))[k]) && metadata_basename(k, prefix@) == n@,
{
    let ghost ev = tree_view(expansion@);
    let ghost em = assoc_map(ev);
    let ghost sm = assoc_map(tree_view(submodule@));
    let mut i: usize = 0;
    while i < expansion.len()
        invariant
            i <= expansion@.len(),
            ev == tree_view(expansion@),
            em == assoc_map(ev),
            sm == assoc_map(tree_view(submodule@)),
            keys_unique(ev),
            keys_unique(tree_view(submodule@)),
            forall|j: int| 0 <= j < i ==> !(#[trigger] matched(em, sm, ev[j].0) && is_submodule_file(sm[ev[j].0])
                && metadata_basename(ev[j].0, prefix@) == n@),
        decreases expansion@.len() - i,
    {
        assert(ev[i as int] == (expansion@[i as int].0@, expansion@[i as int].1@));
        proof {
            lemma_assoc_lookup(ev, i as int);
        }
        let md = metadata_name(expansion[i].0.as_slice(), prefix);
        if bytes_eq(md.as_slice(), n) {
            match find_entry(submodule, expansion[i].0.as_slice()) {
                Some(j) => {
                    if !entry_same(&expansion[i].1, &submodule[j].1) {
                        match &submodule[j].1 {
                            TreeEntry::File(_, t) => {
                                if *t == FileType::GitSubmodule {
                                    assert(matched(em, sm, ev[i as int].0));
                                    return true;
                                }
                            },
                            _ => {},
                        }
                    }
                },
                None => {},
            }
        }
        i = i + 1;
    }
    proof {
        assert forall|k: Seq<u8>| !(#[trigger] matched(em, sm, k) && is_submodule_file(sm[k]) && metadata_basename(k, prefix@) == n@) by {
            if matched(em, sm, k) {
                lemma_assoc_domain(ev, k);
                let j = choose|j: int| 0 <= j < ev.len() && ev[j].0 == k;
                assert(!(matched(em, sm, ev[j].0) && is_submodule_file(sm[ev[j].0]) && metadata_basename(ev[j].0, prefix@) == n@));
            }
        }
    }
    false
}

/// Compares a directory of the expansion with the directory of the
/// sub-repository that it expands. It fails exactly where `diff_ok` does
/// not hold; otherwise it returns what is left to compare, one item for
/// each entry that differs on the two sides.
pub fn diff_trees(
    expansion: &Vec<(Vec<u8>, TreeEntry)>,
    submodule: &Vec<(Vec<u8>, TreeEntry)>,
    prefix: &[u8],
) -> (r: Result<Vec<Pending>, ValidationError>)
    requires
        keys_unique(tree_view(expansion@)),
        keys_unique(tree_view(submodule@)),
    ensures
        r is Ok <==> diff_ok(tree_view(expansion@), tree_view(submodule@), prefix@),
        r matches Ok(plan) ==> plan_ok(plan@.map_values(|p: Pending| p@), tree_view(expansion@), tree_view(submodule@), prefix@),
{
    let ghost ev = tree_view(expansion@);
    let ghost sv = tree_view(submodule@);
    let ghost em = assoc_map(ev);
    let ghost sm = assoc_map(sv);
    let mut j: usize = 0;
    while j < submodule.len()
        invariant
            j <= submodule@.len(),
            ev == tree_view(expansion@),
            sv == tree_view(submodule@),
            em == assoc_map(ev),
            sm == assoc_map(sv),
            keys_unique(ev),
            keys_unique(sv),
            forall|k: int| 0 <= k < j ==> em.contains_key(#[trigger] sv[k].0),
        decreases submodule@.len() - j,
    {
        assert(sv[j as int] == (submodule@[j as int].0@, submodule@[j as int].1@));
        if find_entry(expansion, submodule[j].0.as_slice()).is_none() {
            proof {
                lemma_assoc_lookup(sv, j as int);
            }
            return Err(ValidationError::PathMissingInExpansion(submodule[j].0.clone()));
        }
        j = j + 1;
    }
    proof {
        assert forall|n: Seq<u8>| #[trigger] sm.contains_key(n) implies em.contains_key(n) by {
            lemma_assoc_domain(sv, n);
            let k = choose|k: int| 0 <= k < sv.len() && sv[k].0 == n;
            assert(em.contains_key(sv[k].0));
        }
    }
    let mut plan: Vec<Pending> = Vec::new();
    let mut i: usize = 0;
    while i < expansion.len()
        invariant
            i <= expansion@.len(),
            ev == tree_view(expansion@),
            sv == tree_view(submodule@),
            em == assoc_map(ev),
            sm == assoc_map(sv),
            keys_unique(ev),
            keys_unique(sv),
            forall|n: Seq<u8>| #[trigger] sm.contains_key(n) ==> em.contains_key(n),
            forall|k: int| 0 <= k < i ==> name_ok(em, sm, prefix@, #[trigger] ev[k].0),
            forall|p: int| 0 <= p < plan@.len() ==> pending_ok(#[trigger] plan@[p]@, ev, sv, prefix@),
            forall|p: int| 0 <= p < plan@.len() ==> exists|k: int| 0 <= k < i && (#[trigger] plan@[p]@).name() == ev[k].0,
            forall|p: int, q: int| 0 <= p < q < plan@.len() ==> (#[trigger] plan@[p]@).name() != (#[trigger] plan@[q]@).name(),
            forall|k: int| 0 <= k < i && #[trigger] matched(em, sm, ev[k].0) ==> exists|p: int| 0 <= p < plan@.len() && (#[trigger] plan@[p]@).name() == ev[k].0,
        decreases expansion@.len() - i,
    {
        assert(ev[i as int] == (expansion@[i as int].0@, expansion@[i as int].1@));
        proof {
            lemma_assoc_lookup(ev, i as int);
        }
        let ghost n = ev[i as int].0;
        let name = &expansion[i].0;
        let ghost old_plan = plan@;
        match find_entry(submodule, name.as_slice()) {
            Some(j) => {
                if !entry_same(&expansion[i].1, &submodule[j].1) {
                    assert(matched(em, sm, n));
                    let eid = match &expansion[i].1 {
                        TreeEntry::Directory(id) => id,
                        TreeEntry::File(..) => {
                            return Err(ValidationError::FileInExpansion(name.clone()));
                        },
                    };
                    let item = match &submodule[j].1 {
                        TreeEntry::Directory(sid) => Pending::Directory {
                            name: name.clone(),
                            expansion: eid.clone(),
                            submodule: sid.clone(),
                        },
                        TreeEntry::File(sfid, t) => {
                            if *t != FileType::GitSubmodule {
                                return Err(ValidationError::NotASubmodule(name.clone()));
                            }
                            let md = metadata_name(name.as_slice(), prefix);
                            let mid = match find_entry(expansion, md.as_slice()) {
                                Some(k) => match &expansion[k].1 {
                                    TreeEntry::File(mid, _) => mid,
                                    TreeEntry::Directory(_) => {
                                        return Err(ValidationError::MissingMetadataFile(name.clone()));
                                    },
                                },
                                None => {
                                    return Err(ValidationError::MissingMetadataFile(name.clone()));
                                },
                            };
                            if find_entry(submodule, md.as_slice()).is_some() {
                                return Err(ValidationError::MissingMetadataFile(name.clone()));
                            }
                            Pending::Submodule {
                                name: name.clone(),
                                expansion: eid.clone(),
                                metadata: mid.clone(),
                                submodule_file: sfid.clone(),
                            }
                        },
                    };
                    assert(item@.name() == n);
                    assert(pending_ok(item@, ev, sv, prefix@));
                    plan.push(item);
                    proof {
                        assert(plan@[old_plan.len() as int] == item);
                        assert forall|p: int| 0 <= p < plan@.len() implies exists|k: int| 0 <= k < i + 1 && (#[trigger] plan@[p]@).name() == ev[k].0 by {
                            if p < old_plan.len() {
                                assert(plan@[p] == old_plan[p]);
                                let k = choose|k: int| 0 <= k < i && (#[trigger] old_plan[p]@).name() == ev[k].0;
                                assert(plan@[p]@.name() == ev[k].0);
                            } else {
                                assert(plan@[p]@.name() == ev[i as int].0);
                            }
                        }
                        assert forall|p: int, q: int| 0 <= p < q < plan@.len() implies (#[trigger] plan@[p]@).name() != (#[trigger] plan@[q]@).name() by {
                            if q == old_plan.len() {
                                assert(plan@[p] == old_plan[p]);
                                let k = choose|k: int| 0 <= k < i && (#[trigger] old_plan[p]@).name() == ev[k].0;
                                assert(ev[k].0 != ev[i as int].0);
                            } else {
                                assert(plan@[p] == old_plan[p]);
                                assert(plan@[q] == old_plan[q]);
                            }
                        }
                        assert forall|k: int| 0 <= k < i + 1 && #[trigger] matched(em, sm, ev[k].0) implies exists|p: int| 0 <= p < plan@.len() && (#[trigger] plan@[p]@).name() == ev[k].0 by {
                            if k < i {
                                let p = choose|p: int| 0 <= p < old_plan.len() && (#[trigger] old_plan[p]@).name() == ev[k].0;
                                assert(plan@[p] == old_plan[p]);
                            } else {
                                assert(plan@[old_plan.len() as int]@.name() == ev[k].0);
                            }
                        }
                    }
                }
            },
            None => {
                match &expansion[i].1 {
                    TreeEntry::Directory(_) => {
                        return Err(ValidationError::UnexpectedDirectory(name.clone()));
                    },
                    TreeEntry::File(..) => {
                        if !is_metadata_file(expansion, submodule, name.as_slice(), prefix) {
                            return Err(ValidationError::UnaccountedFile(name.clone()));
                        }
                    },
                }
            },
        }
        assert(name_ok(em, sm, prefix@, n));
        i = i + 1;
    }
    proof {
        assert forall|n: Seq<u8>| #[trigger] em.contains_key(n) implies name_ok(em, sm, prefix@, n) by {
            lemma_assoc_domain(ev, n);
            let k = choose|k: int| 0 <= k < ev.len() && ev[k].0 == n;
            assert(name_ok(em, sm, prefix@, ev[k].0));
        }
        let pv = plan@.map_values(|p: Pending| p@);
        assert forall|n: Seq<u8>| #[trigger] matched(em, sm, n) implies exists|i: int| 0 <= i < pv.len() && (#[trigger] pv[i]).name() == n by {
            lemma_assoc_domain(ev, n);
            let k = choose|k: int| 0 <= k < ev.len() && ev[k].0 == n;
            assert(matched(em, sm, ev[k].0));
            let p = choose|p: int| 0 <= p < plan@.len() && (#[trigger] plan@[p]@).name() == ev[k].0;
            assert(pv[p] == plan@[p]@);
        }
        assert forall|i: int| 0 <= i < pv.len() implies pending_ok(#[trigger] pv[i], ev, sv, prefix@) by {
            assert(pv[i] == plan@[i]@);
        }
        assert forall|i: int, j: int| 0 <= i < j < pv.len() implies (#[trigger] pv[i]).name() != (#[trigger] pv[j]).name() by {
            assert(pv[i] == plan@[i]@);
            assert(pv[j] == plan@[j]@);
        }
    }
    Ok(plan)
}

} // verus!
