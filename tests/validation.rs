use hgwire::expansion::{
    check_expansion_deletion, check_submodule_change, parse_metadata_hash, parse_submodule_file,
    ExpansionStep, FileChange, ValidationError,
};
use hgwire::paths::MPath;
use hgwire::tree_diff::{diff_trees, FileType, Pending, TreeEntry};
use hgwire::walk::{adjust_deps, start_walk, ExpansionWalk, Task, Work};

fn path(s: &str) -> MPath {
    MPath::new(s.split('/').map(|c| c.as_bytes().to_vec()).collect()).unwrap()
}

fn file(id: &str) -> TreeEntry {
    TreeEntry::File(id.as_bytes().to_vec(), FileType::Regular)
}

fn dir(id: &str) -> TreeEntry {
    TreeEntry::Directory(id.as_bytes().to_vec())
}

fn entry(name: &str, e: TreeEntry) -> (Vec<u8>, TreeEntry) {
    (name.as_bytes().to_vec(), e)
}

const HASH_HEX: &str = "0123456789abcdef0123456789abcdef01234567";

fn hash_bytes() -> Vec<u8> {
    (0..20)
        .map(|i| u8::from_str_radix(&HASH_HEX[2 * i..2 * i + 2], 16).unwrap())
        .collect()
}

#[test]
fn metadata_path_is_a_sibling() {
    let p = path("repo/sm");
    assert_eq!(p.metadata_path(b"meta"), path("repo/.meta-sm"));
}

#[test]
fn untouched_expansion_is_unchanged() {
    let changes = vec![(path("other/file"), FileChange::Change(b"c1".to_vec()))];
    let sm = path("repo/sm");
    assert_eq!(
        check_submodule_change(&changes, Some(&sm), b"meta"),
        Ok(ExpansionStep::Unchanged)
    );
}

#[test]
fn expansion_change_without_metadata_fails() {
    let changes = vec![(path("repo/sm/README"), FileChange::Change(b"c1".to_vec()))];
    let sm = path("repo/sm");
    assert_eq!(
        check_submodule_change(&changes, Some(&sm), b"meta"),
        Err(ValidationError::ExpansionChangedWithoutMetadata {
            expansion: path("repo/sm"),
            metadata: path("repo/.meta-sm"),
        })
    );
}

#[test]
fn missing_large_repo_path_fails() {
    let changes = vec![];
    assert_eq!(
        check_submodule_change(&changes, None, b"meta"),
        Err(ValidationError::MoverFailed)
    );
}

#[test]
fn matching_pointer_and_content_need_no_recursion() {
    let changes = vec![
        (path("repo/sm/README"), FileChange::Change(b"hello".to_vec())),
        (path("repo/.meta-sm"), FileChange::Change(b"meta-blob".to_vec())),
    ];
    let sm = path("repo/sm");
    assert_eq!(
        check_submodule_change(&changes, Some(&sm), b"meta"),
        Ok(ExpansionStep::Updated(b"meta-blob".to_vec()))
    );
    let hash = parse_metadata_hash(HASH_HEX.as_bytes()).unwrap();
    assert_eq!(hash.as_bytes(), &hash_bytes()[..]);
    assert!(start_walk(1, b"tree".to_vec(), b"tree".to_vec(), &vec![], &path("sm")).is_none());
}

#[test]
fn updated_content_matches_new_commit() {
    let expansion = vec![entry("README", file("new"))];
    let submodule = vec![entry("README", file("new"))];
    assert_eq!(diff_trees(&expansion, &submodule, b"meta"), Ok(vec![]));

    let old_submodule = vec![entry("README", file("old"))];
    assert_eq!(
        diff_trees(&expansion, &old_submodule, b"meta"),
        Err(ValidationError::FileInExpansion(b"README".to_vec()))
    );
}

#[test]
fn deleted_metadata_with_remaining_file_fails() {
    let changes = vec![(path("repo/.meta-sm"), FileChange::Deletion)];
    let sm = path("repo/sm");
    assert_eq!(
        check_submodule_change(&changes, Some(&sm), b"meta"),
        Ok(ExpansionStep::Deleted)
    );
    let parent_files = vec![path("repo/sm/README")];
    assert_eq!(
        check_expansion_deletion(&changes, &sm, &parent_files),
        Err(ValidationError::MetadataDeletedWithoutExpansion {
            expansion: path("repo/sm"),
            remaining: path("repo/sm/README"),
        })
    );
}

#[test]
fn deleted_metadata_and_expansion_pass() {
    let changes = vec![
        (path("repo/.meta-sm"), FileChange::Deletion),
        (path("repo/sm/README"), FileChange::UntrackedDeletion),
    ];
    let sm = path("repo/sm");
    let parent_files = vec![path("repo/sm/README")];
    assert_eq!(check_expansion_deletion(&changes, &sm, &parent_files), Ok(()));
}

#[test]
fn expansion_replaced_by_a_file_passes() {
    let changes = vec![
        (path("repo/.meta-sm"), FileChange::Deletion),
        (path("repo/sm"), FileChange::Change(b"a-file".to_vec())),
    ];
    let sm = path("repo/sm");
    let parent_files = vec![path("repo/sm/README")];
    assert_eq!(check_expansion_deletion(&changes, &sm, &parent_files), Ok(()));
}

#[test]
fn nested_submodule_pointer_matches() {
    let expansion = vec![
        entry("inner", dir("expanded")),
        entry(".meta-inner", file("meta-blob")),
        entry("README", file("same")),
    ];
    let submodule = vec![
        entry("inner", TreeEntry::File(b"sm-blob".to_vec(), FileType::GitSubmodule)),
        entry("README", file("same")),
    ];
    let plan = diff_trees(&expansion, &submodule, b"meta").unwrap();
    assert_eq!(
        plan,
        vec![Pending::Submodule {
            name: b"inner".to_vec(),
            expansion: b"expanded".to_vec(),
            metadata: b"meta-blob".to_vec(),
            submodule_file: b"sm-blob".to_vec(),
        }]
    );

    let task = Task {
        repo: 1,
        expansion: b"outer".to_vec(),
        submodule: b"outer-sm".to_vec(),
        deps: vec![(path("inner"), 2)],
    };
    let mut walk = ExpansionWalk::new(Task {
        repo: 1,
        expansion: b"outer".to_vec(),
        submodule: b"outer-sm".to_vec(),
        deps: vec![(path("inner"), 2)],
    });
    assert!(matches!(walk.next(), Some(Work::Compare(_))));
    assert_eq!(walk.trees_loaded(&task, &expansion, &submodule, b"meta"), Ok(()));
    let check = match walk.next() {
        Some(Work::Pointer(c)) => c,
        other => panic!("unexpected {:?}", other),
    };
    assert_eq!(check.repo, 2);
    assert_eq!(check.parent_repo, 1);
    assert_eq!(check.metadata, b"meta-blob".to_vec());
    assert_eq!(
        walk.pointer_loaded(check, format!("{}\n", HASH_HEX).as_bytes(), &hash_bytes()),
        Ok(())
    );
    let res = match walk.next() {
        Some(Work::Resolve(r)) => r,
        other => panic!("unexpected {:?}", other),
    };
    assert_eq!(res.repo, 2);
    assert_eq!(res.hash.as_bytes(), &hash_bytes()[..]);
    walk.commit_resolved(res, b"inner-root".to_vec());
    match walk.next() {
        Some(Work::Compare(t)) => {
            assert_eq!(t.repo, 2);
            assert_eq!(t.expansion, b"expanded".to_vec());
            assert_eq!(t.submodule, b"inner-root".to_vec());
        }
        other => panic!("unexpected {:?}", other),
    }
    assert!(walk.next().is_none());
}

#[test]
fn nested_submodule_pointer_mismatch_fails() {
    let mut walk = ExpansionWalk::new(Task {
        repo: 1,
        expansion: b"outer".to_vec(),
        submodule: b"outer-sm".to_vec(),
        deps: vec![(path("inner"), 2)],
    });
    let task = match walk.next() {
        Some(Work::Compare(t)) => t,
        other => panic!("unexpected {:?}", other),
    };
    let expansion = vec![entry("inner", dir("expanded")), entry(".meta-inner", file("meta-blob"))];
    let submodule = vec![entry("inner", TreeEntry::File(b"sm-blob".to_vec(), FileType::GitSubmodule))];
    assert_eq!(walk.trees_loaded(&task, &expansion, &submodule, b"meta"), Ok(()));
    let check = match walk.next() {
        Some(Work::Pointer(c)) => c,
        other => panic!("unexpected {:?}", other),
    };
    let mut other_hash = hash_bytes();
    other_hash[0] ^= 1;
    assert_eq!(
        walk.pointer_loaded(check, HASH_HEX.as_bytes(), &other_hash),
        Err(ValidationError::PointerMismatch(b"inner".to_vec()))
    );
}

#[test]
fn undeclared_nested_submodule_fails() {
    let task = Task {
        repo: 1,
        expansion: b"outer".to_vec(),
        submodule: b"outer-sm".to_vec(),
        deps: vec![],
    };
    let mut walk = ExpansionWalk::new(Task {
        repo: 1,
        expansion: b"outer".to_vec(),
        submodule: b"outer-sm".to_vec(),
        deps: vec![],
    });
    let expansion = vec![entry("inner", dir("expanded")), entry(".meta-inner", file("meta-blob"))];
    let submodule = vec![entry("inner", TreeEntry::File(b"sm-blob".to_vec(), FileType::GitSubmodule))];
    assert_eq!(
        walk.trees_loaded(&task, &expansion, &submodule, b"meta"),
        Err(ValidationError::UnknownSubmodule(b"inner".to_vec()))
    );
}

#[test]
fn diff_errors_name_the_entry() {
    let submodule = vec![entry("a", file("x")), entry("b", dir("d1"))];
    // a sub-repository entry missing from the expansion
    let expansion = vec![entry("b", dir("d1"))];
    assert_eq!(
        diff_trees(&expansion, &submodule, b"meta"),
        Err(ValidationError::PathMissingInExpansion(b"a".to_vec()))
    );
    // an extra file that is no metadata file
    let expansion = vec![entry("a", file("x")), entry("b", dir("d1")), entry("c", file("y"))];
    assert_eq!(
        diff_trees(&expansion, &submodule, b"meta"),
        Err(ValidationError::UnaccountedFile(b"c".to_vec()))
    );
    // an extra directory
    let expansion = vec![entry("a", file("x")), entry("b", dir("d1")), entry("c", dir("y"))];
    assert_eq!(
        diff_trees(&expansion, &submodule, b"meta"),
        Err(ValidationError::UnexpectedDirectory(b"c".to_vec()))
    );
    // a directory where the sub-repository has a plain file
    let expansion = vec![entry("a", dir("x")), entry("b", dir("d1"))];
    assert_eq!(
        diff_trees(&expansion, &submodule, b"meta"),
        Err(ValidationError::NotASubmodule(b"a".to_vec()))
    );
    // a differing directory is compared further down
    let expansion = vec![entry("a", file("x")), entry("b", dir("d2"))];
    assert_eq!(
        diff_trees(&expansion, &submodule, b"meta"),
        Ok(vec![Pending::Directory {
            name: b"b".to_vec(),
            expansion: b"d2".to_vec(),
            submodule: b"d1".to_vec(),
        }])
    );
}

#[test]
fn nested_submodule_without_metadata_fails() {
    let expansion = vec![entry("inner", dir("expanded"))];
    let submodule = vec![entry("inner", TreeEntry::File(b"sm".to_vec(), FileType::GitSubmodule))];
    assert_eq!(
        diff_trees(&expansion, &submodule, b"meta"),
        Err(ValidationError::MissingMetadataFile(b"inner".to_vec()))
    );
}

#[test]
fn metadata_hash_format() {
    assert!(parse_metadata_hash(HASH_HEX.as_bytes()).is_ok());
    assert!(parse_metadata_hash(format!("{}\n", HASH_HEX).as_bytes()).is_ok());
    assert_eq!(
        parse_metadata_hash(format!("{}\n\n", HASH_HEX).as_bytes()),
        Err(ValidationError::InvalidMetadataFile)
    );
    assert_eq!(
        parse_metadata_hash(&HASH_HEX.as_bytes()[..39]),
        Err(ValidationError::InvalidMetadataFile)
    );
    assert_eq!(
        parse_submodule_file(b"inner", &[0u8; 19]),
        Err(ValidationError::InvalidSubmoduleFile(b"inner".to_vec()))
    );
}

#[test]
fn dependencies_below_a_path() {
    let deps = vec![(path("sm/inner"), 2), (path("sm"), 1), (path("other/x"), 3)];
    assert_eq!(adjust_deps(&deps, &path("sm")), vec![(path("inner"), 2)]);
    assert_eq!(path("a/b/c").strip_prefix(&path("a")), Some(path("b/c")));
    assert_eq!(path("a").strip_prefix(&path("a")), None);
}
