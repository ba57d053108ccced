//! The checks that a commit of the large repository makes on each
//! submodule expansion: whether it touches the expansion, what happened
//! to its metadata file, and whether a deleted expansion is gone whole.
use vstd::prelude::*;
use crate::assoc::{assoc_map, keys_unique, lemma_assoc_domain, lemma_assoc_lookup};
use crate::kernel::bytes_eq;
use crate::nodehash::{hex_bytes, is_hash_hex};
use crate::paths::{is_prefix, metadata_path, MPath};

verus! {

/// How a commit changes a file.
#[derive(Debug, Clone, PartialEq, Eq)]
pub enum FileChange {
    /// New content, by its content id.
    Change(Vec<u8>),
    /// New content that history does not track, by its content id.
    UntrackedChange(Vec<u8>),
    Deletion,
    UntrackedDeletion,
}

pub enum SpecFileChange {
    Change(Seq<u8>),
    UntrackedChange(Seq<u8>),
    Deletion,
    UntrackedDeletion,
}

impl View for FileChange {
    type V = SpecFileChange;

    open spec fn view(&self) -> SpecFileChange {
        match self {
            FileChange::Change(c) => SpecFileChange::Change(c@),
            FileChange::UntrackedChange(c) => SpecFileChange::UntrackedChange(c@),
            FileChange::Deletion => SpecFileChange::Deletion,
            FileChange::UntrackedDeletion => SpecFileChange::UntrackedDeletion,
        }
    }
}

impl SpecFileChange {
    pub open spec fn is_removal(self) -> bool {
        self is Deletion || self is UntrackedDeletion
    }
}

pub type ChangesView = Seq<(Seq<Seq<u8>>, SpecFileChange)>;

pub open spec fn changes_view(changes: Seq<(MPath, FileChange)>) -> ChangesView {
    changes.map_values(|e: (MPath, FileChange)| (e.0@, e.1@))
}

/// The file changes of a commit, by path.
pub open spec fn changes_map(changes: ChangesView) -> Map<Seq<Seq<u8>>, SpecFileChange> {
    assoc_map(changes)
}

/// Some change of the commit is at `p` or under it.
pub open spec fn touches(changes: ChangesView, p: Seq<Seq<u8>>) -> bool {
    exists|i: int| 0 <= i < changes.len() && is_prefix(p, (#[trigger] changes[i]).0)
}

/// Why a commit breaks a submodule expansion.
#[derive(Debug, PartialEq, Eq)]
pub enum ValidationError {
    /// The path of the submodule has no counterpart in the large repository.
    MoverFailed,
    /// The expansion changed but its metadata file did not.
    ExpansionChangedWithoutMetadata { expansion: MPath, metadata: MPath },
    /// The metadata file was deleted while a file of the expansion stays.
    MetadataDeletedWithoutExpansion { expansion: MPath, remaining: MPath },
    /// The metadata file does not hold a commit hash.
    InvalidMetadataFile,
    /// A submodule file of the sub-repository does not hold a commit hash.
    InvalidSubmoduleFile(Vec<u8>),
    /// Nothing stands at the expansion's path after the commit.
    ExpansionMissing,
    /// A file stands at the expansion's path after the commit.
    ExpansionNotADirectory,
    /// An entry of the sub-repository has no counterpart in the expansion.
    PathMissingInExpansion(Vec<u8>),
    /// The expansion has a file where the sub-repository has a different entry.
    FileInExpansion(Vec<u8>),
    /// The expansion has a directory that the sub-repository lacks.
    UnexpectedDirectory(Vec<u8>),
    /// The expansion has a directory where the sub-repository has a file
    /// that is no submodule.
    NotASubmodule(Vec<u8>),
    /// A nested expansion lacks its metadata file.
    MissingMetadataFile(Vec<u8>),
    /// A file of the expansion is accounted for by nothing.
    UnaccountedFile(Vec<u8>),
    /// A nested metadata file names another commit than the submodule file.
    PointerMismatch(Vec<u8>),
    /// A nested submodule is not among the declared dependencies.
    UnknownSubmodule(Vec<u8>),
}

/// What the commit does to one submodule expansion.
#[derive(Debug, PartialEq, Eq)]
pub enum ExpansionStep {
    /// Neither the expansion nor its metadata file changes.
    Unchanged,
    /// The metadata file is deleted.
    Deleted,
    /// The metadata file gets the content with this id.
    Updated(Vec<u8>),
}

pub enum SpecExpansionStep {
    Unchanged,
    Deleted,
    Updated(Seq<u8>),
    Fails,
}

/// What the commit with `changes` does to the expansion at `p`, whose
/// metadata file name takes `prefix`.
pub open spec fn spec_expansion_step(changes: ChangesView, p: Seq<Seq<u8>>, prefix: Seq<u8>) -> SpecExpansionStep {
    let m = changes_map(changes);
    let meta = metadata_path(p, prefix);
    if !m.contains_key(meta) {
        if touches(changes, p) {
            SpecExpansionStep::Fails
        } else {
            SpecExpansionStep::Unchanged
        }
    } else {
        match m[meta] {
            SpecFileChange::Change(c) => SpecExpansionStep::Updated(c),
            SpecFileChange::UntrackedChange(c) => SpecExpansionStep::Updated(c),
            _ => SpecExpansionStep::Deleted,
        }
    }
}

/// The change that `changes` makes at `path`, if any.
pub fn find_change<'a>(changes: &'a Vec<(MPath, FileChange)>, path: &MPath) -> (r: Option<&'a FileChange>)
    requires
        keys_unique(changes_view(changes@)),
    ensures
        match r {
            Some(fc) => changes_map(changes_view(changes@)).contains_key(path@)
                && changes_map(changes_view(changes@))[path@] == fc@,
            None => !changes_map(changes_view(changes@)).contains_key(path@),
        },
{
    let ghost cv = changes_view(changes@);
    let mut i: usize = 0;
    while i < changes.len()
        invariant
            i <= changes@.len(),
            cv == changes_view(changes@),
            keys_unique(cv),
            forall|j: int| 0 <= j < i ==> cv[j].0 != path@,
        decreases changes@.len() - i,
    {
        assert(cv[i as int] == (changes@[i as int].0@, changes@[i as int].1@));
        if changes[i].0.same(path) {
            proof {
                lemma_assoc_lookup(cv, i as int);
            }
            return Some(&changes[i].1);
        }
        i = i + 1;
    }
    proof {
        if changes_map(cv).contains_key(path@) {
            lemma_assoc_domain(cv, path@);
        }
    }
    None
}

/// Whether some change of the commit is at `p` or under it.
pub fn expansion_touched(changes: &Vec<(MPath, FileChange)>, p: &MPath) -> (r: bool)
    ensures
        r == touches(changes_view(changes@), p@),
{
    let ghost cv = changes_view(changes@);
    let mut i: usize = 0;
    while i < changes.len()
        invariant
            i <= changes@.len(),
            cv == changes_view(changes@),
            forall|j: int| 0 <= j < i ==> !is_prefix(p@, (#[trigger] cv[j]).0),
        decreases changes@.len() - i,
    {
        assert(cv[i as int] == (changes@[i as int].0@, changes@[i as int].1@));
        if changes[i].0.starts_with(p) {
            return true;
        }
        i = i + 1;
    }
    false
}

/// What the commit does to the expansion at `expansion`, the path that
/// the submodule has in the large repository if it has one; see
/// `spec_expansion_step`.
pub fn check_submodule_change(
    changes: &Vec<(MPath, FileChange)>,
    expansion: Option<&MPath>,
    prefix: &[u8],
) -> (r: Result<ExpansionStep, ValidationError>)
    requires
        keys_unique(changes_view(changes@)),
    ensures
        expansion is None ==> r == Err::<ExpansionStep, ValidationError>(ValidationError::MoverFailed),
        expansion matches Some(p) ==> match (r, spec_expansion_step(changes_view(changes@), p@, prefix@)) {
            (Ok(ExpansionStep::Unchanged), SpecExpansionStep::Unchanged) => true,
            (Ok(ExpansionStep::Deleted), SpecExpansionStep::Deleted) => true,
            (Ok(ExpansionStep::Updated(c)), SpecExpansionStep::Updated(d)) => c@ == d,
            (Err(ValidationError::ExpansionChangedWithoutMetadata { expansion: e, metadata: m }), SpecExpansionStep::Fails) =>
                e@ == p@ && m@ == metadata_path(p@, prefix@),
            _ => false,
        },
{
    let p = match expansion {
        Some(p) => p,
        None => return Err(ValidationError::MoverFailed),
    };
    let meta = p.metadata_path(prefix);
    match find_change(changes, &meta) {
        None => {
            if expansion_touched(changes, p) {
                Err(ValidationError::ExpansionChangedWithoutMetadata { expansion: p.clone(), metadata: meta })
            } else {
                Ok(ExpansionStep::Unchanged)
            }
        },
        Some(FileChange::Change(c)) => Ok(ExpansionStep::Updated(c.clone())),
        Some(FileChange::UntrackedChange(c)) => Ok(ExpansionStep::Updated(c.clone())),
        Some(_) => Ok(ExpansionStep::Deleted),
    }
}

/// The metadata file is deleted and the expansion goes with it: a file
/// takes the expansion's place, or every file that the parents have under
/// it is deleted.
pub open spec fn expansion_deleted(changes: ChangesView, p: Seq<Seq<u8>>, parent_files: Seq<Seq<Seq<u8>>>) -> bool {
    let m = changes_map(changes);
    (m.contains_key(p) && !m[p].is_removal())
        || forall|i: int| 0 <= i < parent_files.len() ==> m.contains_key(#[trigger] parent_files[i]) && m[parent_files[i]].is_removal()
}

pub open spec fn paths_view(v: Seq<MPath>) -> Seq<Seq<Seq<u8>>> {
    v.map_values(|p: MPath| p@)
}

/// Checks that the expansion at `p` goes with its deleted metadata file;
/// `parent_files` are the files, submodule files aside, that the parents
/// of the commit have under `p`.
pub fn check_expansion_deletion(changes: &Vec<(MPath, FileChange)>, p: &MPath, parent_files: &Vec<MPath>) -> (r: Result<(), ValidationError>)
    requires
        keys_unique(changes_view(changes@)),
    ensures
        r is Ok <==> expansion_deleted(changes_view(changes@), p@, paths_view(parent_files@)),
        r matches Err(e) ==> (e matches ValidationError::MetadataDeletedWithoutExpansion { expansion, remaining }
            && expansion@ == p@),
{
    let ghost m = changes_map(changes_view(changes@));
    let ghost pf = paths_view(parent_files@);
    match find_change(changes, p) {
        Some(FileChange::Change(_)) => return Ok(()),
        Some(FileChange::UntrackedChange(_)) => return Ok(()),
        _ => {},
    }
    let mut i: usize = 0;
    while i < parent_files.len()
        invariant
            i <= parent_files@.len(),
            pf == paths_view(parent_files@),
            m == changes_map(changes_view(changes@)),
            keys_unique(changes_view(changes@)),
            !(m.contains_key(p@) && !m[p@].is_removal()),
            forall|j: int| 0 <= j < i ==> m.contains_key(#[trigger] pf[j]) && m[pf[j]].is_removal(),
        decreases parent_files@.len() - i,
    {
        assert(pf[i as int] == parent_files@[i as int]@);
        let removed = match find_change(changes, &parent_files[i]) {
            Some(FileChange::Deletion) => true,
            Some(FileChange::UntrackedDeletion) => true,
            _ => false,
        };
        if !removed {
            return Err(ValidationError::MetadataDeletedWithoutExpansion {
                expansion: p.clone(),
                remaining: parent_files[i].clone(),
            });
        }
        i = i + 1;
    }
    Ok(())
}

/// A commit hash of the sub-repository: 20 bytes.
#[derive(Debug, Clone, PartialEq, Eq)]
pub struct GitHash {
    bytes: Vec<u8>,
}

impl View for GitHash {
    type V = Seq<u8>;

    closed spec fn view(&self) -> Seq<u8> {
        self.bytes@
    }
}

impl GitHash {
    pub fn as_bytes(&self) -> (r: &[u8])
        ensures
            r@ == self@,
    {
        self.bytes.as_slice()
    }

    pub fn same(&self, other: &GitHash) -> (r: bool)
        ensures
            r == (self@ == other@),
    {
        bytes_eq(self.bytes.as_slice(), other.bytes.as_slice())
    }
}

/// The content of a metadata file without one trailing newline, if it
/// ends with one.
pub open spec fn metadata_text(c: Seq<u8>) -> Seq<u8> {
    if c.len() > 0 && c.last() == 10 {
        c.drop_last()
    } else {
        c
    }
}

/// The hash that a metadata file names: 40 lowercase hexadecimal digits,
/// and a newline at most after them.
pub open spec fn spec_metadata_hash(c: Seq<u8>) -> Option<Seq<u8>> {
    if is_hash_hex(metadata_text(c)) {
        Some(hex_bytes(metadata_text(c)))
    } else {
        None
    }
}

/// Reads the hash that a metadata file names; see `spec_metadata_hash`.
pub fn parse_metadata_hash(content: &[u8]) -> (r: Result<GitHash, ValidationError>)
    ensures
        match r {
            Ok(h) => spec_metadata_hash(content@) == Some(h@),
            Err(e) => spec_metadata_hash(content@) is None && e == ValidationError::InvalidMetadataFile,
        },
{
    let n = content.len();
    let text = if n > 0 && content[n - 1] == 10 {
        vstd::slice::slice_subrange(content, 0, n - 1)
    } else {
        content
    };
    assert(text@ =~= metadata_text(content@));
    match crate::nodehash::HgNodeHash::from_hex(text) {
        Some(h) => {
            let bytes = vstd::slice::slice_to_vec(h.as_bytes());
            Ok(GitHash { bytes })
        },
        None => Err(ValidationError::InvalidMetadataFile),
    }
}

/// Reads the hash that a submodule file of a sub-repository holds: its 20
/// bytes are the hash.
pub fn parse_submodule_file(name: &[u8], content: &[u8]) -> (r: Result<GitHash, ValidationError>)
    ensures
        match r {
            Ok(h) => content@.len() == 20 && h@ == content@,
            Err(e) => content@.len() != 20 && (e matches ValidationError::InvalidSubmoduleFile(x) && x@ == name@),
        },
{
    if content.len() == 20 {
        Ok(GitHash { bytes: vstd::slice::slice_to_vec(content) })
    } else {
        Err(ValidationError::InvalidSubmoduleFile(vstd::slice::slice_to_vec(name)))
    }
}

} // verus!
