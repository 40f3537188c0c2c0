use file_walk::copy_dir;
use file_walk::digest;
use file_walk::visit;
use file_walk::CopyAction;
use file_walk::Entry;
use file_walk::FileInfoList;
use file_walk::Filter;
use file_walk::Root;
use file_walk::walk;

fn file(name: &str, data: &[u8]) -> Entry {
    Entry::File { name: name.to_string(), data: data.to_vec() }
}

fn dir(name: &str, children: Vec<Entry>) -> Entry {
    Entry::Dir { name: name.to_string(), children }
}

fn p6_tree() -> Root {
    Root::Found {
        tree: dir("src", vec![file("a.txt", b"hi"), dir("sub", vec![file("b.bin", &[9, 8, 7, 6, 5])])]),
    }
}

#[test]
fn digest_is_deterministic() {
    let data: Vec<u8> = b"some file contents".to_vec();
    let again = data.clone();
    assert_eq!(digest(&data), digest(&again));
    assert_eq!(digest(&data), digest(&data));
}

#[test]
fn digest_changes_when_one_byte_changes() {
    let data: Vec<u8> = b"some file contents".to_vec();
    let mut other = data.clone();
    other[0] ^= 1;
    assert_ne!(digest(&data), digest(&other));
}

#[test]
fn digest_is_fixed_width_uppercase_hexadecimal() {
    for data in [b"".to_vec(), b"hi".to_vec(), vec![0u8; 1000]] {
        let d = digest(&data);
        assert_eq!(d.len(), 32);
        assert!(d.chars().all(|c| c.is_ascii_digit() || ('A'..='F').contains(&c)));
    }
}

#[test]
fn digest_of_known_inputs() {
    assert_eq!(digest(&Vec::new()), "D41D8CD98F00B204E9800998ECF8427E");
    assert_eq!(digest(&b"hi".to_vec()), "49F68A5C8493EC2C0BF489821C21FC3B");
}

#[test]
fn copy_plan_of_the_two_file_tree() {
    let plan = copy_dir(&p6_tree(), "dst").unwrap();
    assert_eq!(plan.len(), 3);
    match &plan[0] {
        CopyAction::CopyFile { src, dst } => {
            assert_eq!(src, "src/a.txt");
            assert_eq!(dst, "dst/a.txt");
        },
        _ => panic!("expected the file copy first"),
    }
    match &plan[1] {
        CopyAction::MkDir { dst } => assert_eq!(dst, "dst/sub"),
        _ => panic!("expected the directory creation before its contents"),
    }
    match &plan[2] {
        CopyAction::CopyFile { src, dst } => {
            assert_eq!(src, "src/sub/b.bin");
            assert_eq!(dst, "dst/sub/b.bin");
        },
        _ => panic!("expected the nested file copy last"),
    }
}

#[test]
fn copied_contents_keep_their_digest() {
    // A plan step copies bytes unchanged, so the digest of the
    // destination contents equals the digest of the source contents.
    let src_bytes: Vec<u8> = b"hi".to_vec();
    let dst_bytes = src_bytes.clone();
    assert_eq!(digest(&src_bytes), digest(&dst_bytes));
}

#[test]
fn copy_plan_mirrors_the_all_files_walk() {
    let root = p6_tree();
    let plan = copy_dir(&root, "dst").unwrap();
    let src_files: Vec<String> = plan
        .iter()
        .filter_map(|a| match a {
            CopyAction::CopyFile { src, .. } => Some(src.clone()),
            CopyAction::MkDir { .. } => None,
        })
        .collect();
    let dst_files: Vec<String> = plan
        .iter()
        .filter_map(|a| match a {
            CopyAction::CopyFile { dst, .. } => Some(dst.clone()),
            CopyAction::MkDir { .. } => None,
        })
        .collect();
    assert_eq!(src_files, walk(&root, &Filter::AllFiles).unwrap());
    let relocated: Vec<String> =
        src_files.iter().map(|p| format!("dst{}", &p["src".len()..])).collect();
    assert_eq!(dst_files, relocated);
}

#[test]
fn executing_the_plan_reproduces_the_source_contents() {
    // A tiny in-memory store plays the part of the filesystem: each
    // file-copy step moves the bytes of its source unchanged.
    let mut store: std::collections::HashMap<String, Vec<u8>> =
        [("src/a.txt".to_string(), b"hi".to_vec()),
         ("src/sub/b.bin".to_string(), vec![9, 8, 7, 6, 5])]
        .into_iter()
        .collect();
    let mut dirs: Vec<String> = Vec::new();
    let plan = copy_dir(&p6_tree(), "dst").unwrap();
    for action in &plan {
        match action {
            CopyAction::MkDir { dst } => dirs.push(dst.clone()),
            CopyAction::CopyFile { src, dst } => {
                let bytes = store.get(src).expect("the plan reads only source files").clone();
                store.insert(dst.clone(), bytes);
            },
        }
    }
    assert_eq!(dirs, vec!["dst/sub".to_string()]);
    assert_eq!(store.get("dst/a.txt").unwrap(), b"hi");
    assert_eq!(store.get("dst/sub/b.bin").unwrap(), &vec![9, 8, 7, 6, 5]);
    assert_eq!(
        digest(store.get("dst/a.txt").unwrap()),
        digest(store.get("src/a.txt").unwrap())
    );
}

#[test]
fn copy_on_missing_source_fails() {
    let r = copy_dir(&Root::Missing { path: "gone".to_string() }, "dst");
    assert!(matches!(r, Err(file_walk::FsError::NotFound { .. })));
}

#[test]
fn visit_accumulates_paths_without_duplicates() {
    let mut list = FileInfoList::new();
    assert!(!list.contains("a"));
    visit(&mut list, "a");
    assert!(list.contains("a"));
    assert!(!list.contains("b"));
    visit(&mut list, "a");
    visit(&mut list, "b");
    assert!(list.contains("a"));
    assert!(list.contains("b"));
}
