use std::collections::HashSet;

use file_walk::delete_files_in_dir;
use file_walk::get_all_file;
use file_walk::get_dir_list;
use file_walk::get_filelist;
use file_walk::get_files;
use file_walk::is_dir;
use file_walk::is_file;
use file_walk::list_file;
use file_walk::walk;
use file_walk::walk_dir;
use file_walk::Entry;
use file_walk::Filter;
use file_walk::FsError;
use file_walk::Root;

fn file(name: &str, data: &[u8]) -> Entry {
    Entry::File { name: name.to_string(), data: data.to_vec() }
}

fn dir(name: &str, children: Vec<Entry>) -> Entry {
    Entry::Dir { name: name.to_string(), children }
}

fn found(tree: Entry) -> Root {
    Root::Found { tree }
}

fn missing(path: &str) -> Root {
    Root::Missing { path: path.to_string() }
}

fn as_set(v: &[String]) -> HashSet<String> {
    v.iter().cloned().collect()
}

fn expected_set(v: &[&str]) -> HashSet<String> {
    v.iter().map(|s| s.to_string()).collect()
}

fn sample_tree() -> Root {
    found(dir(
        "root",
        vec![
            file("a.txt", b"hi"),
            dir("sub", vec![file("b.bin", &[1, 2, 3, 4, 5]), dir("deep", vec![file("c", b"x")])]),
            dir("emptydir", vec![]),
        ],
    ))
}

#[test]
fn all_files_returns_exactly_the_reachable_files() {
    let r = walk(&sample_tree(), &Filter::AllFiles).unwrap();
    assert_eq!(
        as_set(&r),
        expected_set(&["root/a.txt", "root/sub/b.bin", "root/sub/deep/c"])
    );
    assert!(!r.contains(&"root/sub".to_string()));
    assert!(!r.contains(&"root/emptydir".to_string()));
}

#[test]
fn all_dirs_returns_exactly_the_subdirectories_without_the_root() {
    let r = walk(&sample_tree(), &Filter::AllDirs).unwrap();
    assert_eq!(
        as_set(&r),
        expected_set(&["root/sub", "root/sub/deep", "root/emptydir"])
    );
    assert!(!r.contains(&"root".to_string()));
    let parent = r.iter().position(|p| p == "root/sub").unwrap();
    let child = r.iter().position(|p| p == "root/sub/deep").unwrap();
    assert!(parent < child, "a parent directory comes before its children");
}

#[test]
fn suffix_filter_is_case_insensitive() {
    let root = found(dir(
        "r",
        vec![
            file("a.txt", b"1"),
            file("A.TXT", b"2"),
            file("a.TxT", b"3"),
            file("a.text", b"4"),
            dir("sub", vec![file("note.TXT", b"5")]),
        ],
    ));
    let upper = walk_dir(&root, ".TXT").unwrap();
    let want = expected_set(&["r/a.txt", "r/A.TXT", "r/a.TxT", "r/sub/note.TXT"]);
    assert_eq!(as_set(&upper), want);
    assert!(!upper.contains(&"r/a.text".to_string()));
    let lower = walk_dir(&root, ".txt").unwrap();
    assert_eq!(as_set(&lower), want);
}

#[test]
fn walk_on_missing_root_is_not_found() {
    let r = walk(&missing("no/such/dir"), &Filter::AllFiles);
    match r {
        Err(FsError::NotFound { path }) => assert_eq!(path, "no/such/dir"),
        _ => panic!("expected NotFound, not an empty result"),
    }
}

#[test]
fn walk_on_file_root_is_not_a_directory() {
    let r = walk(&found(file("plain.txt", b"hi")), &Filter::AllFiles);
    match r {
        Err(FsError::NotADirectory { path }) => assert_eq!(path, "plain.txt"),
        _ => panic!("expected NotADirectory"),
    }
}

#[test]
fn walk_on_empty_directory_is_ok_and_empty() {
    let r = walk(&found(dir("empty", vec![])), &Filter::AllFiles).unwrap();
    assert!(r.is_empty());
    let d = walk(&found(dir("empty", vec![])), &Filter::AllDirs).unwrap();
    assert!(d.is_empty());
}

#[test]
fn get_filelist_matches_the_all_files_walk() {
    let root = sample_tree();
    let a = get_filelist(&root).unwrap();
    let b = walk(&root, &Filter::AllFiles).unwrap();
    assert_eq!(a, b);
}

#[test]
fn get_dir_list_matches_the_all_dirs_walk() {
    let root = sample_tree();
    let a = get_dir_list(&root).unwrap();
    let b = walk(&root, &Filter::AllDirs).unwrap();
    assert_eq!(a, b);
}

#[test]
fn get_files_appends_to_a_caller_owned_list() {
    let mut list = vec!["kept".to_string()];
    get_files(&sample_tree(), &mut list).unwrap();
    assert_eq!(list[0], "kept");
    assert_eq!(
        as_set(&list),
        expected_set(&["kept", "root/a.txt", "root/sub/b.bin", "root/sub/deep/c"])
    );
}

#[test]
fn get_files_leaves_the_list_alone_on_error() {
    let mut list = vec!["kept".to_string()];
    assert!(get_files(&missing("gone"), &mut list).is_err());
    assert_eq!(list, vec!["kept".to_string()]);
}

#[test]
fn get_all_file_is_one_level_only() {
    let r = get_all_file(&sample_tree(), vec!["seed".to_string()]).unwrap();
    assert_eq!(as_set(&r), expected_set(&["seed", "root/a.txt"]));
}

#[test]
fn list_file_pairs_each_child_with_its_parent() {
    let r = list_file(&sample_tree()).unwrap();
    assert_eq!(r.len(), 3);
    let paths: Vec<String> = r.iter().map(|p| p.0.clone()).collect();
    assert_eq!(
        as_set(&paths),
        expected_set(&["root/a.txt", "root/sub", "root/emptydir"])
    );
    for (_, parent) in &r {
        assert_eq!(parent, "root");
    }
}

#[test]
fn delete_files_removes_files_and_leaves_subdirectories() {
    let root = found(dir(
        "dir",
        vec![file("x.txt", b"x"), file("y.txt", b"y"), dir("subdir", vec![file("z.txt", b"z")])],
    ));
    let r = delete_files_in_dir(&root).unwrap();
    assert_eq!(as_set(&r), expected_set(&["dir/x.txt", "dir/y.txt"]));
    assert!(!r.contains(&"dir/subdir".to_string()));
    assert!(!r.contains(&"dir/subdir/z.txt".to_string()));
}

#[test]
fn delete_files_on_missing_root_is_not_found() {
    match delete_files_in_dir(&missing("gone")) {
        Err(FsError::NotFound { path }) => assert_eq!(path, "gone"),
        _ => panic!("expected NotFound"),
    }
}

#[test]
fn is_dir_and_is_file_follow_the_metadata_probe() {
    assert!(is_dir(&found(dir("d", vec![]))));
    assert!(!is_file(&found(dir("d", vec![]))));
    assert!(!is_dir(&found(file("f", b""))));
    assert!(is_file(&found(file("f", b""))));
    // A missing path is "not a directory", exactly as a failed probe is.
    assert!(!is_dir(&missing("gone")));
    assert!(is_file(&missing("gone")));
}
