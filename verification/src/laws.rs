//! The laws of the traversal and of the copy plan, stated over the
//! model and proved once for every snapshot.
use vstd::prelude::*;
use vstd::seq_lib::lemma_seq_concat_contains_all_elements;
use vstd::seq_lib::lemma_seq_empty_contains_nothing;
use crate::model::Entry;
use crate::model::FilterV;
use crate::model::file_matches;
use crate::model::join;
use crate::model::upper_of;
use crate::model::walk_entry;
use crate::model::walk_seq;
use crate::copy::ActionV;
use crate::copy::plan_entry;
use crate::copy::plan_seq;

verus! {

/// A regular file lies at path `q` somewhere in the tree of `e`, which
/// itself sits under `prefix`.
pub open spec fn has_file_at(e: Entry, prefix: Seq<char>, q: Seq<char>) -> bool
    decreases e, 0int,
{
    match e {
        Entry::File { name, .. } => q == join(prefix, name@),
        Entry::Dir { name, children } => seq_has_file_at(children@, 0, join(prefix, name@), q),
    }
}

/// A regular file lies at path `q` in one of the trees of `es` from
/// index `i` on.
pub open spec fn seq_has_file_at(es: Seq<Entry>, i: int, prefix: Seq<char>, q: Seq<char>) -> bool
    decreases es, es.len() - i,
{
    if 0 <= i < es.len() {
        has_file_at(es[i], prefix, q) || seq_has_file_at(es, i + 1, prefix, q)
    } else {
        false
    }
}

/// A directory lies at path `q` somewhere in the tree of `e` — as `e`
/// itself, or below it.
pub open spec fn has_dir_at(e: Entry, prefix: Seq<char>, q: Seq<char>) -> bool
    decreases e, 0int,
{
    match e {
        Entry::File { .. } => false,
        Entry::Dir { name, children } => q == join(prefix, name@) || seq_has_dir_at(
            children@,
            0,
            join(prefix, name@),
            q,
        ),
    }
}

/// A directory lies at path `q` in one of the trees of `es` from index
/// `i` on.
pub open spec fn seq_has_dir_at(es: Seq<Entry>, i: int, prefix: Seq<char>, q: Seq<char>) -> bool
    decreases es, es.len() - i,
{
    if 0 <= i < es.len() {
        has_dir_at(es[i], prefix, q) || seq_has_dir_at(es, i + 1, prefix, q)
    } else {
        false
    }
}

/// A one-element sequence contains exactly its element.
proof fn lemma_singleton_contains<A>(x: A, q: A)
    ensures
        seq![x].contains(q) <==> q == x,
{
    if q == x {
        assert(seq![x][0] == x);
    }
    if seq![x].contains(q) {
        let i = choose|i: int| 0 <= i < seq![x].len() && seq![x][i] == q;
        assert(seq![x][0] == x);
    }
}

proof fn lemma_entry_files_exact(e: Entry, prefix: Seq<char>, q: Seq<char>)
    ensures
        walk_entry(e, prefix, FilterV::AllFiles).contains(q) <==> has_file_at(e, prefix, q),
    decreases e, 0int,
{
    broadcast use {lemma_seq_concat_contains_all_elements, lemma_seq_empty_contains_nothing};

    match e {
        Entry::File { name, .. } => {
            lemma_singleton_contains(join(prefix, name@), q);
        },
        Entry::Dir { name, children } => {
            let p = join(prefix, name@);
            lemma_seq_files_exact(children@, 0, p, q);
            assert(walk_entry(e, prefix, FilterV::AllFiles) == Seq::<Seq<char>>::empty()
                + walk_seq(children@, 0, p, FilterV::AllFiles));
        },
    }
}

proof fn lemma_seq_files_exact(es: Seq<Entry>, i: int, prefix: Seq<char>, q: Seq<char>)
    ensures
        walk_seq(es, i, prefix, FilterV::AllFiles).contains(q) <==> seq_has_file_at(
            es,
            i,
            prefix,
            q,
        ),
    decreases es, es.len() - i,
{
    broadcast use {lemma_seq_concat_contains_all_elements, lemma_seq_empty_contains_nothing};

    if 0 <= i < es.len() {
        lemma_entry_files_exact(es[i], prefix, q);
        lemma_seq_files_exact(es, i + 1, prefix, q);
    }
}

proof fn lemma_entry_dirs_exact(e: Entry, prefix: Seq<char>, q: Seq<char>)
    ensures
        walk_entry(e, prefix, FilterV::AllDirs).contains(q) <==> has_dir_at(e, prefix, q),
    decreases e, 0int,
{
    broadcast use {lemma_seq_concat_contains_all_elements, lemma_seq_empty_contains_nothing};

    match e {
        Entry::File { .. } => {
        },
        Entry::Dir { name, children } => {
            let p = join(prefix, name@);
            lemma_singleton_contains(p, q);
            lemma_seq_dirs_exact(children@, 0, p, q);
            assert(walk_entry(e, prefix, FilterV::AllDirs) == seq![p] + walk_seq(
                children@,
                0,
                p,
                FilterV::AllDirs,
            ));
        },
    }
}

proof fn lemma_seq_dirs_exact(es: Seq<Entry>, i: int, prefix: Seq<char>, q: Seq<char>)
    ensures
        walk_seq(es, i, prefix, FilterV::AllDirs).contains(q) <==> seq_has_dir_at(
            es,
            i,
            prefix,
            q,
        ),
    decreases es, es.len() - i,
{
    broadcast use {lemma_seq_concat_contains_all_elements, lemma_seq_empty_contains_nothing};

    if 0 <= i < es.len() {
        lemma_entry_dirs_exact(es[i], prefix, q);
        lemma_seq_dirs_exact(es, i + 1, prefix, q);
    }
}

/// The all-files traversal of a directory with children `es` at path
/// `prefix` returns a path exactly when a regular file is reachable at
/// it, and so returns no directory's path: a directory path `q`
/// satisfies `seq_has_dir_at`, never `seq_has_file_at`, in a tree that
/// holds no file and directory of the same name side by side.
pub proof fn lemma_walk_all_files_exact(es: Seq<Entry>, prefix: Seq<char>, q: Seq<char>)
    ensures
        walk_seq(es, 0, prefix, FilterV::AllFiles).contains(q) <==> seq_has_file_at(
            es,
            0,
            prefix,
            q,
        ),
{
    lemma_seq_files_exact(es, 0, prefix, q);
}

/// The all-directories traversal of a directory with children `es` at
/// path `prefix` returns a path exactly when a directory is reachable
/// at it; the root itself sits above `es` and is never returned.
pub proof fn lemma_walk_all_dirs_exact(es: Seq<Entry>, prefix: Seq<char>, q: Seq<char>)
    ensures
        walk_seq(es, 0, prefix, FilterV::AllDirs).contains(q) <==> seq_has_dir_at(
            es,
            0,
            prefix,
            q,
        ),
{
    lemma_seq_dirs_exact(es, 0, prefix, q);
}

proof fn lemma_entry_paths_extend(e: Entry, prefix: Seq<char>, f: FilterV, q: Seq<char>)
    requires
        walk_entry(e, prefix, f).contains(q),
    ensures
        q.len() > prefix.len(),
    decreases e, 0int,
{
    broadcast use {lemma_seq_concat_contains_all_elements, lemma_seq_empty_contains_nothing};

    reveal_strlit("/");
    match e {
        Entry::File { name, .. } => {
            if file_matches(name@, f) {
                lemma_singleton_contains(join(prefix, name@), q);
            }
        },
        Entry::Dir { name, children } => {
            let p = join(prefix, name@);
            if f is AllDirs {
                lemma_singleton_contains(p, q);
                assert(walk_entry(e, prefix, f) == seq![p] + walk_seq(children@, 0, p, f));
            } else {
                assert(walk_entry(e, prefix, f) == Seq::<Seq<char>>::empty() + walk_seq(
                    children@,
                    0,
                    p,
                    f,
                ));
            }
            if walk_seq(children@, 0, p, f).contains(q) {
                lemma_seq_paths_extend(children@, 0, p, f, q);
            }
        },
    }
}

proof fn lemma_seq_paths_extend(es: Seq<Entry>, i: int, prefix: Seq<char>, f: FilterV, q: Seq<
    char,
>)
    requires
        walk_seq(es, i, prefix, f).contains(q),
    ensures
        q.len() > prefix.len(),
    decreases es, es.len() - i,
{
    broadcast use {lemma_seq_concat_contains_all_elements, lemma_seq_empty_contains_nothing};

    if 0 <= i < es.len() {
        if walk_entry(es[i], prefix, f).contains(q) {
            lemma_entry_paths_extend(es[i], prefix, f, q);
        } else {
            lemma_seq_paths_extend(es, i + 1, prefix, f, q);
        }
    }
}

/// Every path a traversal returns strictly extends the root path it
/// was walked from; in particular the root's own path is never among
/// the results, under any filter.
pub proof fn lemma_walk_excludes_root(es: Seq<Entry>, prefix: Seq<char>, f: FilterV, q: Seq<char>)
    requires
        walk_seq(es, 0, prefix, f).contains(q),
    ensures
        q.len() > prefix.len(),
        q != prefix,
{
    lemma_seq_paths_extend(es, 0, prefix, f, q);
}

/// Two file names with the same uppercase form are matched identically
/// by a case-insensitive suffix filter.
pub proof fn lemma_suffix_match_case_insensitive(n1: Seq<char>, n2: Seq<char>, sfx: Seq<char>)
    requires
        upper_of(n1) == upper_of(n2),
    ensures
        file_matches(n1, FilterV::SuffixCaseInsensitive(sfx)) == file_matches(
            n2,
            FilterV::SuffixCaseInsensitive(sfx),
        ),
{
}

/// A well-formed entry name, as a directory listing yields it: free of
/// the path separator.
pub open spec fn name_ok(n: Seq<char>) -> bool {
    !n.contains('/')
}

/// The names of the entries of `es` are pairwise distinct, as the
/// entries of one directory are.
pub open spec fn distinct_names(es: Seq<Entry>) -> bool {
    forall|a: int, b: int|
        0 <= a < b < es.len() ==> #[trigger] es[a].name_spec() != #[trigger] es[b].name_spec()
}

/// A well-formed snapshot entry: its name and, below a directory, the
/// names of every entry are separator-free, and siblings are pairwise
/// distinct.
pub open spec fn entry_wf(e: Entry) -> bool
    decreases e, 0int,
{
    match e {
        Entry::File { name, .. } => name_ok(name@),
        Entry::Dir { name, children } => name_ok(name@) && distinct_names(children@) && seq_wf(
            children@,
            0,
        ),
    }
}

/// The entries of `es` from index `i` on are well formed.
pub open spec fn seq_wf(es: Seq<Entry>, i: int) -> bool
    decreases es, es.len() - i,
{
    if 0 <= i < es.len() {
        entry_wf(es[i]) && seq_wf(es, i + 1)
    } else {
        true
    }
}

/// `q` begins with `r`.
spec fn starts_with(q: Seq<char>, r: Seq<char>) -> bool {
    r.len() <= q.len() && q.subrange(0, r.len() as int) == r
}

/// `q` is `r`, or continues `r` at a separator.
spec fn boundary_ok(q: Seq<char>, r: Seq<char>) -> bool {
    starts_with(q, r) && (q.len() == r.len() || q[r.len() as int] == '/')
}

proof fn lemma_seq_wf_index(es: Seq<Entry>, i: int, c: int)
    requires
        0 <= i <= c < es.len(),
        seq_wf(es, i),
    ensures
        entry_wf(es[c]),
    decreases c - i,
{
    if i < c {
        lemma_seq_wf_index(es, i + 1, c);
    }
}

proof fn lemma_seq_file_witness(es: Seq<Entry>, i: int, prefix: Seq<char>, q: Seq<char>) -> (c:
    int)
    requires
        seq_has_file_at(es, i, prefix, q),
    ensures
        i <= c < es.len(),
        has_file_at(es[c], prefix, q),
    decreases es.len() - i,
{
    if has_file_at(es[i], prefix, q) {
        i
    } else {
        lemma_seq_file_witness(es, i + 1, prefix, q)
    }
}

proof fn lemma_seq_dir_witness(es: Seq<Entry>, i: int, prefix: Seq<char>, q: Seq<char>) -> (c:
    int)
    requires
        seq_has_dir_at(es, i, prefix, q),
    ensures
        i <= c < es.len(),
        has_dir_at(es[c], prefix, q),
    decreases es.len() - i,
{
    if has_dir_at(es[i], prefix, q) {
        i
    } else {
        lemma_seq_dir_witness(es, i + 1, prefix, q)
    }
}

/// A path that begins with `join(p, n)` begins with `p`, continues it
/// at a separator, and is strictly longer than `p`.
proof fn lemma_boundary_lift(q: Seq<char>, p: Seq<char>, n: Seq<char>)
    requires
        starts_with(q, join(p, n)),
    ensures
        boundary_ok(q, p),
        q.len() > p.len(),
{
    reveal_strlit("/");
    let r = join(p, n);
    assert(r.len() == p.len() + 1 + n.len());
    assert forall|k: int| 0 <= k < p.len() implies q[k] == p[k] by {
        assert(q.subrange(0, r.len() as int)[k] == q[k]);
        assert(r[k] == p[k]);
    }
    assert(q.subrange(0, p.len() as int) =~= p);
    assert(q.subrange(0, r.len() as int)[p.len() as int] == q[p.len() as int]);
    assert(r[p.len() as int] == '/');
}

/// Every regular-file path below `e` continues the path of `e` itself.
proof fn lemma_file_path_boundary(e: Entry, prefix: Seq<char>, q: Seq<char>)
    requires
        has_file_at(e, prefix, q),
    ensures
        boundary_ok(q, join(prefix, e.name_spec())),
    decreases e, 0int,
{
    match e {
        Entry::File { name, .. } => {
            assert(q.subrange(0, q.len() as int) =~= q);
        },
        Entry::Dir { name, children } => {
            let p = join(prefix, name@);
            let c = lemma_seq_file_witness(children@, 0, p, q);
            lemma_file_path_boundary(children@[c], p, q);
            lemma_boundary_lift(q, p, children@[c].name_spec());
        },
    }
}

/// Every directory path at or below `e` is the path of `e` itself, or
/// continues it.
proof fn lemma_dir_path_boundary(e: Entry, prefix: Seq<char>, q: Seq<char>)
    requires
        has_dir_at(e, prefix, q),
    ensures
        boundary_ok(q, join(prefix, e.name_spec())),
    decreases e, 0int,
{
    match e {
        Entry::File { .. } => {
        },
        Entry::Dir { name, children } => {
            let p = join(prefix, name@);
            if q == p {
                assert(q.subrange(0, q.len() as int) =~= q);
            } else {
                let c = lemma_seq_dir_witness(children@, 0, p, q);
                lemma_dir_path_boundary(children@[c], p, q);
                lemma_boundary_lift(q, p, children@[c].name_spec());
            }
        },
    }
}

/// Two separator-free sibling names whose joined paths are both
/// continued by one path `q` at a separator boundary are one name.
proof fn lemma_sibling_boundary_clash(q: Seq<char>, p: Seq<char>, n1: Seq<char>, n2: Seq<char>)
    requires
        name_ok(n1),
        name_ok(n2),
        n1.len() <= n2.len(),
        boundary_ok(q, join(p, n1)),
        boundary_ok(q, join(p, n2)),
    ensures
        n1 == n2,
{
    reveal_strlit("/");
    let r1 = join(p, n1);
    let r2 = join(p, n2);
    assert(r1.len() == p.len() + 1 + n1.len());
    assert(r2.len() == p.len() + 1 + n2.len());
    assert forall|k: int| 0 <= k < n2.len() implies q[p.len() + 1 + k] == n2[k] by {
        assert(q.subrange(0, r2.len() as int)[p.len() + 1 + k] == q[p.len() + 1 + k]);
        assert(r2[p.len() + 1 + k] == n2[k]);
    }
    assert forall|k: int| 0 <= k < n1.len() implies q[p.len() + 1 + k] == n1[k] by {
        assert(q.subrange(0, r1.len() as int)[p.len() + 1 + k] == q[p.len() + 1 + k]);
        assert(r1[p.len() + 1 + k] == n1[k]);
    }
    if n1.len() == n2.len() {
        assert(n1 =~= n2);
    } else {
        assert(q.len() >= r2.len());
        assert(q[r1.len() as int] == '/');
        assert(n2[n1.len() as int] == '/');
        assert(n2.contains('/'));
        assert(false);
    }
}

proof fn lemma_entry_disjoint(e: Entry, prefix: Seq<char>, q: Seq<char>)
    requires
        entry_wf(e),
    ensures
        !(has_file_at(e, prefix, q) && has_dir_at(e, prefix, q)),
    decreases e, 0int,
{
    if has_file_at(e, prefix, q) && has_dir_at(e, prefix, q) {
        match e {
            Entry::File { .. } => {
            },
            Entry::Dir { name, children } => {
                let p = join(prefix, name@);
                let c = lemma_seq_file_witness(children@, 0, p, q);
                lemma_file_path_boundary(children@[c], p, q);
                lemma_boundary_lift(q, p, children@[c].name_spec());
                assert(q != p);
                lemma_seq_disjoint(children@, p, q);
            },
        }
    }
}

proof fn lemma_seq_disjoint(es: Seq<Entry>, prefix: Seq<char>, q: Seq<char>)
    requires
        seq_wf(es, 0),
        distinct_names(es),
    ensures
        !(seq_has_file_at(es, 0, prefix, q) && seq_has_dir_at(es, 0, prefix, q)),
    decreases es, 1int,
{
    if seq_has_file_at(es, 0, prefix, q) && seq_has_dir_at(es, 0, prefix, q) {
        let c1 = lemma_seq_file_witness(es, 0, prefix, q);
        let c2 = lemma_seq_dir_witness(es, 0, prefix, q);
        lemma_seq_wf_index(es, 0, c1);
        lemma_seq_wf_index(es, 0, c2);
        if c1 == c2 {
            lemma_entry_disjoint(es[c1], prefix, q);
        } else {
            let n1 = es[c1].name_spec();
            let n2 = es[c2].name_spec();
            lemma_file_path_boundary(es[c1], prefix, q);
            lemma_dir_path_boundary(es[c2], prefix, q);
            if n1.len() <= n2.len() {
                lemma_sibling_boundary_clash(q, prefix, n1, n2);
            } else {
                lemma_sibling_boundary_clash(q, prefix, n2, n1);
            }
        }
    }
}

/// In a well-formed snapshot no path holds both a regular file and a
/// directory, so neither traversal can return a path of the other
/// kind.
pub proof fn lemma_file_and_dir_paths_disjoint(es: Seq<Entry>, prefix: Seq<char>, q: Seq<char>)
    requires
        seq_wf(es, 0),
        distinct_names(es),
    ensures
        !(seq_has_file_at(es, 0, prefix, q) && seq_has_dir_at(es, 0, prefix, q)),
{
    lemma_seq_disjoint(es, prefix, q);
}

/// The all-files traversal of a well-formed snapshot returns no
/// directory path.
pub proof fn lemma_walk_all_files_excludes_dirs(es: Seq<Entry>, prefix: Seq<char>, q: Seq<char>)
    requires
        seq_wf(es, 0),
        distinct_names(es),
        seq_has_dir_at(es, 0, prefix, q),
    ensures
        !walk_seq(es, 0, prefix, FilterV::AllFiles).contains(q),
{
    lemma_seq_files_exact(es, 0, prefix, q);
    lemma_seq_disjoint(es, prefix, q);
}

/// The source paths of the file-copy steps of a plan, in plan order.
pub open spec fn copy_srcs(p: Seq<ActionV>) -> Seq<Seq<char>>
    decreases p.len(),
{
    if p.len() == 0 {
        Seq::empty()
    } else {
        (match p[0] {
            ActionV::CopyFile(s, _) => seq![s],
            ActionV::MkDir(_) => Seq::empty(),
        }) + copy_srcs(p.drop_first())
    }
}

/// The destination paths of the file-copy steps of a plan, in plan
/// order.
pub open spec fn copy_dsts(p: Seq<ActionV>) -> Seq<Seq<char>>
    decreases p.len(),
{
    if p.len() == 0 {
        Seq::empty()
    } else {
        (match p[0] {
            ActionV::CopyFile(_, d) => seq![d],
            ActionV::MkDir(_) => Seq::empty(),
        }) + copy_dsts(p.drop_first())
    }
}

proof fn lemma_copy_files_concat(a: Seq<ActionV>, b: Seq<ActionV>)
    ensures
        copy_srcs(a + b) == copy_srcs(a) + copy_srcs(b),
        copy_dsts(a + b) == copy_dsts(a) + copy_dsts(b),
    decreases a.len(),
{
    if a.len() == 0 {
        assert(a + b =~= b);
        assert(copy_srcs(a) + copy_srcs(b) =~= copy_srcs(b));
        assert(copy_dsts(a) + copy_dsts(b) =~= copy_dsts(b));
    } else {
        assert((a + b).drop_first() =~= a.drop_first() + b);
        assert((a + b)[0] == a[0]);
        lemma_copy_files_concat(a.drop_first(), b);
        assert(copy_srcs(a + b) =~= copy_srcs(a) + copy_srcs(b));
        assert(copy_dsts(a + b) =~= copy_dsts(a) + copy_dsts(b));
    }
}

proof fn lemma_plan_entry_files(e: Entry, sp: Seq<char>, dp: Seq<char>)
    ensures
        copy_srcs(plan_entry(e, sp, dp)) == walk_entry(e, sp, FilterV::AllFiles),
        copy_dsts(plan_entry(e, sp, dp)) == walk_entry(e, dp, FilterV::AllFiles),
    decreases e, 0int,
{
    match e {
        Entry::File { name, .. } => {
            let a = ActionV::CopyFile(join(sp, name@), join(dp, name@));
            assert(seq![a].drop_first() =~= Seq::<ActionV>::empty());
            assert(copy_srcs(Seq::<ActionV>::empty()) =~= Seq::<Seq<char>>::empty());
            assert(copy_dsts(Seq::<ActionV>::empty()) =~= Seq::<Seq<char>>::empty());
            assert(copy_srcs(plan_entry(e, sp, dp)) =~= walk_entry(e, sp, FilterV::AllFiles));
            assert(copy_dsts(plan_entry(e, sp, dp)) =~= walk_entry(e, dp, FilterV::AllFiles));
        },
        Entry::Dir { name, children } => {
            let sp2 = join(sp, name@);
            let dp2 = join(dp, name@);
            let head = seq![ActionV::MkDir(dp2)];
            lemma_copy_files_concat(head, plan_seq(children@, 0, sp2, dp2));
            lemma_plan_seq_files(children@, 0, sp2, dp2);
            assert(head.drop_first() =~= Seq::<ActionV>::empty());
            assert(copy_srcs(Seq::<ActionV>::empty()) =~= Seq::<Seq<char>>::empty());
            assert(copy_dsts(Seq::<ActionV>::empty()) =~= Seq::<Seq<char>>::empty());
            assert(copy_srcs(head) =~= Seq::<Seq<char>>::empty());
            assert(copy_dsts(head) =~= Seq::<Seq<char>>::empty());
            assert(copy_srcs(plan_entry(e, sp, dp)) =~= walk_entry(e, sp, FilterV::AllFiles));
            assert(copy_dsts(plan_entry(e, sp, dp)) =~= walk_entry(e, dp, FilterV::AllFiles));
        },
    }
}

proof fn lemma_plan_seq_files(es: Seq<Entry>, i: int, sp: Seq<char>, dp: Seq<char>)
    ensures
        copy_srcs(plan_seq(es, i, sp, dp)) == walk_seq(es, i, sp, FilterV::AllFiles),
        copy_dsts(plan_seq(es, i, sp, dp)) == walk_seq(es, i, dp, FilterV::AllFiles),
    decreases es, es.len() - i,
{
    if 0 <= i < es.len() {
        lemma_copy_files_concat(plan_entry(es[i], sp, dp), plan_seq(es, i + 1, sp, dp));
        lemma_plan_entry_files(es[i], sp, dp);
        lemma_plan_seq_files(es, i + 1, sp, dp);
    }
}

/// The copy plan for children `es` under source root `sp` and
/// destination root `dp` reads exactly the paths that the all-files
/// traversal of the source yields, and writes the same traversal
/// transplanted under the destination root: the same relative paths,
/// in the same order, so the two file sets are isomorphic. Each
/// file-copy step transfers the bytes of its source unchanged, so
/// corresponding files hold equal contents once the plan has run.
pub proof fn lemma_copy_plan_mirrors_walk(es: Seq<Entry>, sp: Seq<char>, dp: Seq<char>)
    ensures
        copy_srcs(plan_seq(es, 0, sp, dp)) == walk_seq(es, 0, sp, FilterV::AllFiles),
        copy_dsts(plan_seq(es, 0, sp, dp)) == walk_seq(es, 0, dp, FilterV::AllFiles),
{
    lemma_plan_seq_files(es, 0, sp, dp);
}

} // verus!
