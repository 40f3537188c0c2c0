//! The recursive directory-tree traversal: one primitive, parameterized
//! by a filter, over a snapshot of the tree.
use vstd::prelude::*;
use crate::model::Entry;
use crate::model::Filter;
use crate::model::FilterV;
use crate::model::FsError;
use crate::model::Root;
use crate::model::direct_files;
use crate::model::file_matches;
use crate::model::root_is_dir;
use crate::model::views_of;
use crate::model::walk_entry;
use crate::model::walk_seq;
use crate::model::walk_upto;
use crate::text::ends_with_str;
use crate::text::join_path;
use crate::text::to_upper;

verus! {

/// Pushing a string appends its view to the views of the vector.
proof fn lemma_views_push(s: Seq<String>, x: String)
    ensures
        views_of(s.push(x)) == views_of(s) + seq![x@],
{
    assert(views_of(s.push(x)) =~= views_of(s) + seq![x@]);
}

/// A traversal of `es` splits at any index `i` into the part before
/// and the part from `i` on.
proof fn lemma_walk_split(es: Seq<Entry>, i: int, prefix: Seq<char>, f: FilterV)
    requires
        0 <= i <= es.len(),
    ensures
        walk_seq(es, 0, prefix, f) == walk_upto(es, i, prefix, f) + walk_seq(es, i, prefix, f),
    decreases i,
{
    if i == 0 {
        assert(walk_seq(es, 0, prefix, f) =~= walk_upto(es, 0, prefix, f) + walk_seq(
            es,
            0,
            prefix,
            f,
        ));
    } else {
        lemma_walk_split(es, i - 1, prefix, f);
        assert(walk_seq(es, i - 1, prefix, f) == walk_entry(es[i - 1], prefix, f) + walk_seq(
            es,
            i,
            prefix,
            f,
        ));
        assert(walk_upto(es, i, prefix, f) + walk_seq(es, i, prefix, f) =~= walk_upto(
            es,
            i - 1,
            prefix,
            f,
        ) + (walk_entry(es[i - 1], prefix, f) + walk_seq(es, i, prefix, f)));
    }
}

/// Whether a regular file named `name` passes `filter`.
fn file_matches_exec(name: &String, filter: &Filter) -> (r: bool)
    ensures
        r == file_matches(name@, filter@),
{
    match filter {
        Filter::AllFiles => true,
        Filter::AllDirs => false,
        Filter::SuffixCaseInsensitive { suffix } => {
            let un = to_upper(name.as_str());
            let us = to_upper(suffix.as_str());
            ends_with_str(un.as_str(), us.as_str())
        },
    }
}

/// Appends to `out` the paths that the traversal emits for the single
/// entry `e` sitting under `prefix`.
fn walk_into(e: &Entry, prefix: &str, filter: &Filter, out: &mut Vec<String>)
    ensures
        views_of(final(out)@) == views_of(old(out)@) + walk_entry(*e, prefix@, filter@),
    decreases *e, 0int,
{
    match e {
        Entry::File { name, .. } => {
            if file_matches_exec(name, filter) {
                let p = join_path(prefix, name.as_str());
                proof {
                    lemma_views_push(out@, p);
                }
                out.push(p);
            } else {
                assert(views_of(out@) =~= views_of(old(out)@) + walk_entry(
                    *e,
                    prefix@,
                    filter@,
                ));
            }
        },
        Entry::Dir { name, children } => {
            let p = join_path(prefix, name.as_str());
            let ghost head: Seq<Seq<char>> = if filter@ is AllDirs {
                seq![p@]
            } else {
                Seq::empty()
            };
            if matches!(filter, Filter::AllDirs) {
                let q = p.clone();
                proof {
                    lemma_views_push(out@, q);
                }
                out.push(q);
            }
            assert(views_of(out@) =~= views_of(old(out)@) + head);
            walk_children(children, p.as_str(), filter, out);
            assert(views_of(out@) =~= views_of(old(out)@) + (head + walk_seq(
                children@,
                0,
                p@,
                filter@,
            )));
        },
    }
}

/// Appends to `out` the paths that the traversal emits for all the
/// entries of `children`, each sitting under `prefix`.
fn walk_children(children: &Vec<Entry>, prefix: &str, filter: &Filter, out: &mut Vec<String>)
    ensures
        views_of(final(out)@) == views_of(old(out)@) + walk_seq(children@, 0, prefix@, filter@),
    decreases *children, 1int,
{
    let ghost base: Seq<Seq<char>> = views_of(out@);
    let mut j: usize = 0;
    while j < children.len()
        invariant
            j <= children.len(),
            views_of(out@) == base + walk_upto(children@, j as int, prefix@, filter@),
        decreases children.len() - j,
    {
        walk_into(&children[j], prefix, filter, out);
        proof {
            assert(walk_upto(children@, j + 1, prefix@, filter@) == walk_upto(
                children@,
                j as int,
                prefix@,
                filter@,
            ) + walk_entry(children@[j as int], prefix@, filter@));
            assert(base + walk_upto(children@, j + 1, prefix@, filter@) =~= (base + walk_upto(
                children@,
                j as int,
                prefix@,
                filter@,
            )) + walk_entry(children@[j as int], prefix@, filter@));
        }
        j += 1;
    }
    proof {
        lemma_walk_split(children@, children@.len() as int, prefix@, filter@);
        assert(base + walk_seq(children@, 0, prefix@, filter@) =~= base + walk_upto(
            children@,
            children@.len() as int,
            prefix@,
            filter@,
        ));
    }
}

/// The traversal primitive: descends the tree under `root` and returns
/// the paths that `filter` selects, in traversal order.
///
/// A missing root fails with `NotFound`; a root that is a regular file
/// fails with `NotADirectory`; an empty directory yields an empty list.
/// The root's own path is never among the results.
pub fn walk(root: &Root, filter: &Filter) -> (r: Result<Vec<String>, FsError>)
    ensures
        match *root {
            Root::Missing { path } => (r matches Err(FsError::NotFound { path: p })
                && p@ == path@),
            Root::Found { tree } => match tree {
                Entry::File { name, .. } => (r matches Err(FsError::NotADirectory { path: p })
                    && p@ == name@),
                Entry::Dir { name, children } => (r matches Ok(ps) && views_of(ps@) == walk_seq(
                    children@,
                    0,
                    name@,
                    filter@,
                )),
            },
        },
{
    match root {
        Root::Missing { path } => Err(FsError::NotFound { path: path.clone() }),
        Root::Found { tree } => match tree {
            Entry::File { name, .. } => Err(FsError::NotADirectory { path: name.clone() }),
            Entry::Dir { name, children } => {
                let mut out: Vec<String> = Vec::new();
                walk_children(children, name.as_str(), filter, &mut out);
                assert(views_of(out@) =~= walk_seq(children@, 0, name@, filter@));
                Ok(out)
            },
        },
    }
}

/// The paths of every regular file reachable under `root`, directories
/// excluded, with a suffix of the file name matched case-insensitively.
pub fn walk_dir(root: &Root, suffix: &str) -> (r: Result<Vec<String>, FsError>)
    ensures
        match *root {
            Root::Missing { path } => (r matches Err(FsError::NotFound { path: p })
                && p@ == path@),
            Root::Found { tree } => match tree {
                Entry::File { name, .. } => (r matches Err(FsError::NotADirectory { path: p })
                    && p@ == name@),
                Entry::Dir { name, children } => (r matches Ok(ps) && views_of(ps@) == walk_seq(
                    children@,
                    0,
                    name@,
                    FilterV::SuffixCaseInsensitive(suffix@),
                )),
            },
        },
{
    let f = Filter::SuffixCaseInsensitive { suffix: String::from_str(suffix) };
    walk(root, &f)
}

/// The paths of every regular file reachable under `root`, directories
/// excluded.
pub fn get_filelist(root: &Root) -> (r: Result<Vec<String>, FsError>)
    ensures
        match *root {
            Root::Missing { path } => (r matches Err(FsError::NotFound { path: p })
                && p@ == path@),
            Root::Found { tree } => match tree {
                Entry::File { name, .. } => (r matches Err(FsError::NotADirectory { path: p })
                    && p@ == name@),
                Entry::Dir { name, children } => (r matches Ok(ps) && views_of(ps@) == walk_seq(
                    children@,
                    0,
                    name@,
                    FilterV::AllFiles,
                )),
            },
        },
{
    walk(root, &Filter::AllFiles)
}

/// The paths of every directory reachable under `root`, the root itself
/// excluded, each parent before its children.
pub fn get_dir_list(root: &Root) -> (r: Result<Vec<String>, FsError>)
    ensures
        match *root {
            Root::Missing { path } => (r matches Err(FsError::NotFound { path: p })
                && p@ == path@),
            Root::Found { tree } => match tree {
                Entry::File { name, .. } => (r matches Err(FsError::NotADirectory { path: p })
                    && p@ == name@),
                Entry::Dir { name, children } => (r matches Ok(ps) && views_of(ps@) == walk_seq(
                    children@,
                    0,
                    name@,
                    FilterV::AllDirs,
                )),
            },
        },
{
    walk(root, &Filter::AllDirs)
}

/// Appends the paths of every regular file reachable under `root` to a
/// caller-owned list; on an error the list is left as it was.
pub fn get_files(root: &Root, file_list: &mut Vec<String>) -> (r: Result<(), FsError>)
    ensures
        match *root {
            Root::Missing { path } => (r matches Err(FsError::NotFound { path: p })
                && p@ == path@ && final(file_list)@ == old(file_list)@),
            Root::Found { tree } => match tree {
                Entry::File { name, .. } => (r matches Err(FsError::NotADirectory { path: p })
                    && p@ == name@ && final(file_list)@ == old(file_list)@),
                Entry::Dir { name, children } => (r is Ok && views_of(final(file_list)@)
                    == views_of(old(file_list)@) + walk_seq(
                    children@,
                    0,
                    name@,
                    FilterV::AllFiles,
                )),
            },
        },
{
    match root {
        Root::Missing { path } => Err(FsError::NotFound { path: path.clone() }),
        Root::Found { tree } => match tree {
            Entry::File { name, .. } => Err(FsError::NotADirectory { path: name.clone() }),
            Entry::Dir { name, children } => {
                walk_children(children, name.as_str(), &Filter::AllFiles, file_list);
                Ok(())
            },
        },
    }
}

/// The entry's own name.
fn entry_name(e: &Entry) -> (r: &String)
    ensures
        r@ == e.name_spec(),
{
    match e {
        Entry::File { name, .. } => name,
        Entry::Dir { name, .. } => name,
    }
}

/// Appends the paths of the regular files directly inside a directory
/// (children `children`, path `prefix`) to `out`: one level only.
fn push_direct_files(children: &Vec<Entry>, prefix: &str, out: &mut Vec<String>)
    ensures
        views_of(final(out)@) == views_of(old(out)@) + direct_files(children@, 0, prefix@),
{
    let ghost base: Seq<Seq<char>> = views_of(out@);
    let ghost total: Seq<Seq<char>> = direct_files(children@, 0, prefix@);
    let mut j: usize = 0;
    while j < children.len()
        invariant
            j <= children.len(),
            views_of(out@) + direct_files(children@, j as int, prefix@) =~= base + total,
        decreases children.len() - j,
    {
        let ghost before: Seq<String> = out@;
        match &children[j] {
            Entry::File { name, .. } => {
                let p = join_path(prefix, name.as_str());
                proof {
                    lemma_views_push(out@, p);
                }
                out.push(p);
                proof {
                    assert(views_of(out@) + direct_files(children@, j + 1, prefix@)
                        =~= views_of(before) + direct_files(children@, j as int, prefix@));
                }
            },
            Entry::Dir { .. } => {
                assert(direct_files(children@, j as int, prefix@) =~= direct_files(
                    children@,
                    j + 1,
                    prefix@,
                ));
            },
        }
        j += 1;
    }
    assert(views_of(out@) =~= base + total);
}

/// The paths of the regular files directly inside `root`, appended to
/// the caller's list `s` and handed back; one level, no recursion.
pub fn get_all_file(root: &Root, s: Vec<String>) -> (r: Result<Vec<String>, FsError>)
    ensures
        match *root {
            Root::Missing { path } => (r matches Err(FsError::NotFound { path: p })
                && p@ == path@),
            Root::Found { tree } => match tree {
                Entry::File { name, .. } => (r matches Err(FsError::NotADirectory { path: p })
                    && p@ == name@),
                Entry::Dir { name, children } => (r matches Ok(v) && views_of(v@) == views_of(s@)
                    + direct_files(children@, 0, name@)),
            },
        },
{
    match root {
        Root::Missing { path } => Err(FsError::NotFound { path: path.clone() }),
        Root::Found { tree } => match tree {
            Entry::File { name, .. } => Err(FsError::NotADirectory { path: name.clone() }),
            Entry::Dir { name, children } => {
                let mut v = s;
                push_direct_files(children, name.as_str(), &mut v);
                Ok(v)
            },
        },
    }
}

/// The paths of the regular files directly inside `root`: the files a
/// bulk deletion of `root` removes, in directory-read order.
/// Subdirectories and their contents are left out.
pub fn delete_files_in_dir(root: &Root) -> (r: Result<Vec<String>, FsError>)
    ensures
        match *root {
            Root::Missing { path } => (r matches Err(FsError::NotFound { path: p })
                && p@ == path@),
            Root::Found { tree } => match tree {
                Entry::File { name, .. } => (r matches Err(FsError::NotADirectory { path: p })
                    && p@ == name@),
                Entry::Dir { name, children } => (r matches Ok(v) && views_of(v@) == direct_files(
                    children@,
                    0,
                    name@,
                )),
            },
        },
{
    match root {
        Root::Missing { path } => Err(FsError::NotFound { path: path.clone() }),
        Root::Found { tree } => match tree {
            Entry::File { name, .. } => Err(FsError::NotADirectory { path: name.clone() }),
            Entry::Dir { name, children } => {
                let mut v: Vec<String> = Vec::new();
                push_direct_files(children, name.as_str(), &mut v);
                Ok(v)
            },
        },
    }
}

/// The direct children of `root`, each paired with its parent: the
/// child's full path on the left, the root's path on the right.
pub fn list_file(root: &Root) -> (r: Result<Vec<(String, String)>, FsError>)
    ensures
        match *root {
            Root::Missing { path } => (r matches Err(FsError::NotFound { path: p })
                && p@ == path@),
            Root::Found { tree } => match tree {
                Entry::File { name, .. } => (r matches Err(FsError::NotADirectory { path: p })
                    && p@ == name@),
                Entry::Dir { name, children } => (r matches Ok(ps) && ps@.len() == children@.len()
                    && (forall|i: int|
                    0 <= i < children@.len() ==> ((#[trigger] ps@[i]).0@ == crate::model::join(
                        name@,
                        children@[i].name_spec(),
                    ) && ps@[i].1@ == name@))),
            },
        },
{
    match root {
        Root::Missing { path } => Err(FsError::NotFound { path: path.clone() }),
        Root::Found { tree } => match tree {
            Entry::File { name, .. } => Err(FsError::NotADirectory { path: name.clone() }),
            Entry::Dir { name, children } => {
                let mut ps: Vec<(String, String)> = Vec::new();
                let mut j: usize = 0;
                while j < children.len()
                    invariant
                        j <= children.len(),
                        ps@.len() == j,
                        forall|i: int|
                            0 <= i < j ==> ((#[trigger] ps@[i]).0@ == crate::model::join(
                                name@,
                                children@[i].name_spec(),
                            ) && ps@[i].1@ == name@),
                    decreases children.len() - j,
                {
                    let child = entry_name(&children[j]);
                    let p = join_path(name.as_str(), child.as_str());
                    ps.push((p, name.clone()));
                    j += 1;
                }
                Ok(ps)
            },
        },
    }
}

/// Whether the probed root exists and is a directory.
pub fn is_dir(root: &Root) -> (r: bool)
    ensures
        r == root_is_dir(*root),
{
    match root {
        Root::Missing { .. } => false,
        Root::Found { tree } => matches!(tree, Entry::Dir { .. }),
    }
}

/// Whether the probed root is not a directory. A missing root counts,
/// exactly as a metadata probe that fails does.
pub fn is_file(root: &Root) -> (r: bool)
    ensures
        r == !root_is_dir(*root),
{
    !is_dir(root)
}

} // verus!
