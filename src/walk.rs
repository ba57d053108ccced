//! The recursive comparison of an expansion with the sub-repository it
//! expands, as a list of work items. Whoever drives it loads the trees and
//! blobs that an item names and hands them back; the decisions are made
//! here.
use vstd::prelude::*;
use crate::assoc::keys_unique;
use crate::expansion::{parse_metadata_hash, parse_submodule_file, spec_metadata_hash, GitHash, ValidationError};
use crate::paths::{is_prefix, MPath};
use crate::tree_diff::{
    diff_ok, diff_trees, matched, tree_view, Pending, TreeEntry,
};
use crate::assoc::assoc_map;

verus! {

/// A sub-repository, as the caller numbers them.
pub type RepoId = u64;

pub type DepsView = Seq<(Seq<Seq<u8>>, RepoId)>;

pub open spec fn deps_view(d: Seq<(MPath, RepoId)>) -> DepsView {
    d.map_values(|e: (MPath, RepoId)| (e.0@, e.1))
}

/// The dependencies that lie strictly under `prefix`, with their paths
/// taken relative to it.
pub open spec fn adjusted(deps: DepsView, prefix: Seq<Seq<u8>>) -> DepsView
    decreases deps.len(),
{
    if deps.len() == 0 {
        Seq::empty()
    } else {
        let last = deps.last();
        adjusted(deps.drop_last(), prefix) + if is_prefix(prefix, last.0) && prefix.len() < last.0.len() {
            seq![(last.0.skip(prefix.len() as int), last.1)]
        } else {
            Seq::empty()
        }
    }
}

/// The dependencies under `prefix`, relative to it; see `adjusted`.
pub fn adjust_deps(deps: &Vec<(MPath, RepoId)>, prefix: &MPath) -> (r: Vec<(MPath, RepoId)>)
    ensures
        deps_view(r@) == adjusted(deps_view(deps@), prefix@),
{
    let ghost dv = deps_view(deps@);
    let mut out: Vec<(MPath, RepoId)> = Vec::new();
    let mut i: usize = 0;
    assert(dv.take(0) =~= Seq::<(Seq<Seq<u8>>, RepoId)>::empty());
    assert(deps_view(out@) =~= Seq::<(Seq<Seq<u8>>, RepoId)>::empty());
    while i < deps.len()
        invariant
            i <= deps@.len(),
            dv == deps_view(deps@),
            deps_view(out@) == adjusted(dv.take(i as int), prefix@),
        decreases deps@.len() - i,
    {
        assert(dv.take(i + 1).drop_last() =~= dv.take(i as int));
        assert(dv[i as int] == (deps@[i as int].0@, deps@[i as int].1));
        let ghost before = deps_view(out@);
        match deps[i].0.strip_prefix(prefix) {
            Some(rest) => {
                let ghost rv = rest@;
                out.push((rest, deps[i].1));
                assert(deps_view(out@) =~= before.push((rv, deps@[i as int].1)));
                assert(deps_view(out@) =~= adjusted(dv.take(i + 1), prefix@));
            },
            None => {
                assert(deps_view(out@) =~= adjusted(dv.take(i + 1), prefix@));
            },
        }
        i = i + 1;
    }
    assert(dv.take(i as int) =~= dv);
    out
}

/// The sub-repository of the first dependency at `path`, if there is one.
pub open spec fn dep_of(deps: DepsView, path: Seq<Seq<u8>>) -> Option<RepoId>
    decreases deps.len(),
{
    if deps.len() == 0 {
        None
    } else if deps[0].0 == path {
        Some(deps[0].1)
    } else {
        dep_of(deps.drop_first(), path)
    }
}

fn find_dep(deps: &Vec<(MPath, RepoId)>, path: &MPath) -> (r: Option<RepoId>)
    ensures
        r == dep_of(deps_view(deps@), path@),
{
    let ghost dv = deps_view(deps@);
    let mut i: usize = 0;
    assert(dv.skip(0) =~= dv);
    while i < deps.len()
        invariant
            i <= deps@.len(),
            dv == deps_view(deps@),
            dep_of(dv, path@) == dep_of(dv.skip(i as int), path@),
        decreases deps@.len() - i,
    {
        assert(dv[i as int] == (deps@[i as int].0@, deps@[i as int].1));
        assert(dv.skip(i as int)[0] == dv[i as int]);
        assert(dv.skip(i as int).drop_first() =~= dv.skip(i + 1));
        if deps[i].0.same(path) {
            return Some(deps[i].1);
        }
        i = i + 1;
    }
    assert(dv.skip(i as int).len() == 0);
    None
}

/// Compare the expansion tree `expansion` of the large repository with the
/// tree `submodule` of the sub-repository `repo`; `deps` are the
/// dependencies below this point.
#[derive(Debug)]
pub struct Task {
    pub repo: RepoId,
    pub expansion: Vec<u8>,
    pub submodule: Vec<u8>,
    pub deps: Vec<(MPath, RepoId)>,
}

/// Check that the metadata file `metadata` (a blob of the large
/// repository) and the submodule file `submodule_file` (a blob of
/// `parent_repo`) name the same commit of `repo`.
#[derive(Debug)]
pub struct PointerCheck {
    pub name: Vec<u8>,
    pub parent_repo: RepoId,
    pub repo: RepoId,
    pub expansion: Vec<u8>,
    pub metadata: Vec<u8>,
    pub submodule_file: Vec<u8>,
    pub deps: Vec<(MPath, RepoId)>,
}

/// Find the root tree of the commit `hash` of `repo`, to compare with
/// the expansion tree `expansion`.
#[derive(Debug)]
pub struct Resolution {
    pub repo: RepoId,
    pub hash: GitHash,
    pub expansion: Vec<u8>,
    pub deps: Vec<(MPath, RepoId)>,
}

/// One item of work, and what its driver must fetch for it.
#[derive(Debug)]
pub enum Work {
    Compare(Task),
    Pointer(PointerCheck),
    Resolve(Resolution),
}

/// The work that is left.
pub struct ExpansionWalk {
    work: Vec<Work>,
}

impl View for ExpansionWalk {
    type V = Seq<Work>;

    closed spec fn view(&self) -> Seq<Work> {
        self.work@
    }
}

/// The item of work that a pending comparison of `task` becomes.
pub open spec fn work_for(p: Pending, w: Work, task: Task) -> bool {
    match (p, w) {
        (Pending::Directory { name, expansion, submodule }, Work::Compare(t)) => t.repo == task.repo
            && t.expansion@ == expansion@ && t.submodule@ == submodule@
            && deps_view(t.deps@) == adjusted(deps_view(task.deps@), seq![name@]),
        (Pending::Submodule { name, expansion, metadata, submodule_file }, Work::Pointer(c)) => c.name@ == name@
            && c.parent_repo == task.repo
            && dep_of(deps_view(task.deps@), seq![name@]) == Some(c.repo)
            && c.expansion@ == expansion@ && c.metadata@ == metadata@ && c.submodule_file@ == submodule_file@
            && deps_view(c.deps@) == adjusted(deps_view(task.deps@), seq![name@]),
        _ => false,
    }
}

/// Every nested submodule that the two trees show is a dependency.
pub open spec fn deps_cover(e: crate::tree_diff::TreeView, s: crate::tree_diff::TreeView, deps: DepsView) -> bool {
    forall|n: Seq<u8>| #[trigger] matched(assoc_map(e), assoc_map(s), n)
        && crate::tree_diff::is_submodule_file(assoc_map(s)[n]) ==> dep_of(deps, seq![n]) is Some
}

/// The work `after` is `before` with one item for each item of `plan`,
/// which holds what is left to compare of `task`'s trees `e` and `s`.
pub open spec fn queued(
    plan: Seq<Pending>,
    before: Seq<Work>,
    after: Seq<Work>,
    task: Task,
    e: crate::tree_diff::TreeView,
    s: crate::tree_diff::TreeView,
    prefix: Seq<u8>,
) -> bool {
    &&& crate::tree_diff::plan_ok(plan.map_values(|p: Pending| p@), e, s, prefix)
    &&& after.len() == before.len() + plan.len()
    &&& after.take(before.len() as int) == before
    &&& forall|k: int| 0 <= k < plan.len() ==> work_for(#[trigger] plan[k], after[before.len() + k], task)
}

impl ExpansionWalk {
    /// A walk that starts with one comparison.
    pub fn new(first: Task) -> (r: ExpansionWalk)
        ensures
            r@ == seq![Work::Compare(first)],
    {
        let mut work: Vec<Work> = Vec::new();
        work.push(Work::Compare(first));
        ExpansionWalk { work }
    }

    /// The next item of work, if any is left.
    pub fn next(&mut self) -> (r: Option<Work>)
        ensures
            old(self)@.len() == 0 ==> r is None && final(self)@ == old(self)@,
            old(self)@.len() > 0 ==> r == Some(old(self)@.last()) && final(self)@ == old(self)@.drop_last(),
    {
        self.work.pop()
    }

    /// Hands back the two trees of `task`: the entries of its expansion tree
    /// and of its sub-repository tree. Fails where the trees differ in a way
    /// that no expansion explains (see `diff_ok`) or a nested submodule is
    /// not a declared dependency; otherwise adds one item for each entry
    /// that differs on the two sides.
    pub fn trees_loaded(
        &mut self,
        task: &Task,
        expansion: &Vec<(Vec<u8>, TreeEntry)>,
        submodule: &Vec<(Vec<u8>, TreeEntry)>,
        prefix: &[u8],
    ) -> (r: Result<(), ValidationError>)
        requires
            keys_unique(tree_view(expansion@)),
            keys_unique(tree_view(submodule@)),
            forall|i: int| 0 <= i < expansion@.len() ==> (#[trigger] expansion@[i]).0@.len() > 0,
        ensures
            r is Ok <==> diff_ok(tree_view(expansion@), tree_view(submodule@), prefix@)
                && deps_cover(tree_view(expansion@), tree_view(submodule@), deps_view(task.deps@)),
            r is Ok ==> exists|plan: Seq<Pending>| #[trigger] queued(plan, old(self)@, final(self)@, *task,
                tree_view(expansion@), tree_view(submodule@), prefix@),
    {
        let plan = match diff_trees(expansion, submodule, prefix) {
            Ok(p) => p,
            Err(e) => return Err(e),
        };
        let ghost dv = deps_view(task.deps@);
        let ghost etv = tree_view(expansion@);
        let ghost stv = tree_view(submodule@);
        let ghost start = self.work@;
        let ghost pv = plan@.map_values(|p: Pending| p@);
        let ghost em = assoc_map(tree_view(expansion@));
        let ghost sm = assoc_map(tree_view(submodule@));
        proof {
            assert forall|j: int| 0 <= j < plan@.len() implies (#[trigger] plan@[j])@.name().len() > 0 by {
                assert(pv[j] == plan@[j]@);
                assert(crate::tree_diff::pending_ok(pv[j], tree_view(expansion@), tree_view(submodule@), prefix@));
                let n = pv[j].name();
                assert(matched(em, sm, n));
                crate::assoc::lemma_assoc_domain(tree_view(expansion@), n);
                let i = choose|i: int| 0 <= i < tree_view(expansion@).len() && tree_view(expansion@)[i].0 == n;
                assert(tree_view(expansion@)[i].0 == expansion@[i].0@);
            }
        }
        let mut k: usize = 0;
        while k < plan.len()
            invariant
                k <= plan@.len(),
                forall|j: int| 0 <= j < plan@.len() ==> (#[trigger] plan@[j])@.name().len() > 0,
                pv == plan@.map_values(|p: Pending| p@),
                etv == tree_view(expansion@),
                stv == tree_view(submodule@),
                dv == deps_view(task.deps@),
                em == assoc_map(tree_view(expansion@)),
                sm == assoc_map(tree_view(submodule@)),
                crate::tree_diff::plan_ok(pv, tree_view(expansion@), tree_view(submodule@), prefix@),
                forall|j: int| 0 <= j < k && (#[trigger] pv[j]) is Submodule ==> dep_of(dv, seq![pv[j].name()]) is Some,
                self.work@.len() == start.len() + k,
                self.work@.take(start.len() as int) == start,
                forall|j: int| 0 <= j < k ==> work_for(#[trigger] plan@[j], self.work@[start.len() + j], *task),
            decreases plan@.len() - k,
        {
            let ghost before = self.work@;
            let item = match &plan[k] {
                Pending::Directory { name, expansion, submodule } => {
                    assert(plan@[k as int]@.name() == name@);
                    let nm = name.clone();
                    let comps = vec![nm];
                    assert(crate::paths::components_view(comps@) =~= seq![name@]);
                    let here = MPath::new(comps);
                    let deps = match here {
                        Some(h) => adjust_deps(&task.deps, &h),
                        None => Vec::new(),
                    };
                    Work::Compare(Task {
                        repo: task.repo,
                        expansion: expansion.clone(),
                        submodule: submodule.clone(),
                        deps,
                    })
                },
                Pending::Submodule { name, expansion, metadata, submodule_file } => {
                    assert(plan@[k as int]@.name() == name@);
                    let nm = name.clone();
                    let comps = vec![nm];
                    assert(crate::paths::components_view(comps@) =~= seq![name@]);
                    let here = MPath::new(comps);
                    let (repo, deps) = match here {
                        Some(h) => match find_dep(&task.deps, &h) {
                            Some(repo) => (repo, adjust_deps(&task.deps, &h)),
                            None => {
                                proof {
                                    assert(pv[k as int] == plan@[k as int]@);
                                    assert(crate::tree_diff::pending_ok(pv[k as int], etv, stv, prefix@));
                                    assert(h@ == seq![name@]);
                                    assert(matched(em, sm, name@));
                                }
                                return Err(ValidationError::UnknownSubmodule(name.clone()));
                            },
                        },
                        None => return Err(ValidationError::UnknownSubmodule(name.clone())),
                    };
                    Work::Pointer(PointerCheck {
                        name: name.clone(),
                        parent_repo: task.repo,
                        repo,
                        expansion: expansion.clone(),
                        metadata: metadata.clone(),
                        submodule_file: submodule_file.clone(),
                        deps,
                    })
                },
            };
            assert(work_for(plan@[k as int], item, *task));
            assert(pv[k as int] == plan@[k as int]@);
            self.work.push(item);
            assert(self.work@.take(start.len() as int) =~= start);
            assert(self.work@[start.len() + k] == item);
            k = k + 1;
        }
        proof {
            assert forall|n: Seq<u8>| #[trigger] matched(em, sm, n) && crate::tree_diff::is_submodule_file(sm[n])
                implies dep_of(dv, seq![n]) is Some by {
                let j = choose|j: int| 0 <= j < pv.len() && (#[trigger] pv[j]).name() == n;
                assert(crate::tree_diff::pending_ok(pv[j], tree_view(expansion@), tree_view(submodule@), prefix@));
            }
        }
        assert(start == old(self)@);
        assert(queued(plan@, old(self)@, self@, *task, tree_view(expansion@), tree_view(submodule@), prefix@));
        Ok(())
    }
}

} // verus!

verus! {

impl ExpansionWalk {
    /// Hands back the contents of the two blobs of `check`. Fails unless
    /// the metadata file names a commit (see `spec_metadata_hash`), the
    /// submodule file holds a 20-byte hash, and the two are the same
    /// commit; otherwise adds the finding of that commit's root tree.
    pub fn pointer_loaded(&mut self, check: PointerCheck, metadata: &[u8], submodule_file: &[u8]) -> (r: Result<(), ValidationError>)
        ensures
            r is Ok <==> (spec_metadata_hash(metadata@) == Some(submodule_file@) && submodule_file@.len() == 20),
            r is Ok ==> final(self)@.len() == old(self)@.len() + 1
                && final(self)@.drop_last() == old(self)@
                && (final(self)@.last() matches Work::Resolve(res)
                    && res.repo == check.repo && res.hash@ == submodule_file@ && res.expansion == check.expansion
                    && res.deps == check.deps),
            r is Err ==> final(self)@ == old(self)@,
    {
        let from_metadata = match parse_metadata_hash(metadata) {
            Ok(h) => h,
            Err(e) => return Err(e),
        };
        let from_submodule = match parse_submodule_file(check.name.as_slice(), submodule_file) {
            Ok(h) => h,
            Err(e) => return Err(e),
        };
        if !from_metadata.same(&from_submodule) {
            return Err(ValidationError::PointerMismatch(check.name));
        }
        let ghost before = self.work@;
        self.work.push(Work::Resolve(Resolution {
            repo: check.repo,
            hash: from_submodule,
            expansion: check.expansion,
            deps: check.deps,
        }));
        assert(self.work@.drop_last() =~= before);
        Ok(())
    }

    /// Hands back the root tree of the commit that `res` names; adds its
    /// comparison with the expansion.
    pub fn commit_resolved(&mut self, res: Resolution, tree: Vec<u8>)
        ensures
            final(self)@ == old(self)@.push(Work::Compare(Task {
                repo: res.repo,
                expansion: res.expansion,
                submodule: tree,
                deps: res.deps,
            })),
    {
        self.work.push(Work::Compare(Task { repo: res.repo, expansion: res.expansion, submodule: tree, deps: res.deps }));
    }
}

/// The tree that stands at the expansion's path after the commit, which
/// must be a directory.
pub fn expansion_tree(entry: Option<TreeEntry>) -> (r: Result<Vec<u8>, ValidationError>)
    ensures
        match entry {
            Some(TreeEntry::Directory(id)) => r == Ok::<Vec<u8>, ValidationError>(id),
            Some(TreeEntry::File(..)) => r == Err::<Vec<u8>, ValidationError>(ValidationError::ExpansionNotADirectory),
            None => r == Err::<Vec<u8>, ValidationError>(ValidationError::ExpansionMissing),
        },
{
    match entry {
        Some(TreeEntry::Directory(id)) => Ok(id),
        Some(TreeEntry::File(..)) => Err(ValidationError::ExpansionNotADirectory),
        None => Err(ValidationError::ExpansionMissing),
    }
}

/// Starts the comparison of the expansion tree `expansion` of the
/// submodule at `submodule_path` with the root tree `submodule` of the
/// commit that its metadata names, in the sub-repository `repo`. Equal
/// trees need no comparison: the result is `None`. Otherwise the walk
/// starts with them, and the dependencies under the submodule.
pub fn start_walk(
    repo: RepoId,
    expansion: Vec<u8>,
    submodule: Vec<u8>,
    deps: &Vec<(MPath, RepoId)>,
    submodule_path: &MPath,
) -> (r: Option<ExpansionWalk>)
    ensures
        expansion@ == submodule@ ==> r is None,
        expansion@ != submodule@ ==> (r matches Some(w) && w@.len() == 1 && (w@[0] matches Work::Compare(t)
            && t.repo == repo && t.expansion == expansion && t.submodule == submodule
            && deps_view(t.deps@) == adjusted(deps_view(deps@), submodule_path@))),
{
    if crate::kernel::bytes_eq(expansion.as_slice(), submodule.as_slice()) {
        return None;
    }
    let adjusted_deps = adjust_deps(deps, submodule_path);
    Some(ExpansionWalk::new(Task { repo, expansion, submodule, deps: adjusted_deps }))
}

} // verus!
