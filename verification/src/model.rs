//! The data model: a snapshot of a directory tree, the traversal
//! filters, the error kinds, and the specification of what a traversal
//! returns.
use vstd::prelude::*;

verus! {

/// One entry of a directory-tree snapshot: a regular file with its
/// contents, or a directory with its children in directory-read order.
///
/// A snapshot classifies every entry as exactly one of file or
/// directory at the instant it was taken; symbolic links are resolved
/// to their target's kind by whoever takes the snapshot.
pub enum Entry {
    File { name: String, data: Vec<u8> },
    Dir { name: String, children: Vec<Entry> },
}

impl Entry {
    /// The entry's own name (for a traversal root: its full path).
    pub open spec fn name_spec(self) -> Seq<char> {
        match self {
            Entry::File { name, .. } => name@,
            Entry::Dir { name, .. } => name@,
        }
    }
}

/// What a probe of a root path found: nothing at all, or the tree
/// rooted there. The `path` of a missing root and the `name` of a
/// found root both hold the probed path itself.
pub enum Root {
    Missing { path: String },
    Found { tree: Entry },
}

/// The error kinds of every operation, each carrying the offending path.
#[derive(Debug)]
pub enum FsError {
    NotFound { path: String },
    NotADirectory { path: String },
    PermissionDenied { path: String },
    AlreadyExists { path: String },
    IOError { path: String },
}

/// The traversal filters: every regular file, every directory, or the
/// files whose name ends with a suffix, compared case-insensitively.
pub enum Filter {
    AllFiles,
    AllDirs,
    SuffixCaseInsensitive { suffix: String },
}

/// The mathematical form of a filter, over character sequences.
pub enum FilterV {
    AllFiles,
    AllDirs,
    SuffixCaseInsensitive(Seq<char>),
}

impl View for Filter {
    type V = FilterV;

    open spec fn view(&self) -> FilterV {
        match self {
            Filter::AllFiles => FilterV::AllFiles,
            Filter::AllDirs => FilterV::AllDirs,
            Filter::SuffixCaseInsensitive { suffix } => FilterV::SuffixCaseInsensitive(suffix@),
        }
    }
}

/// Whether a probed root exists and is a directory.
pub open spec fn root_is_dir(root: Root) -> bool {
    match root {
        Root::Missing { .. } => false,
        Root::Found { tree } => tree is Dir,
    }
}

/// The name of what `str::to_uppercase` returns: the Unicode uppercase
/// form of a character sequence.
pub uninterp spec fn upper_of(s: Seq<char>) -> Seq<char>;

/// `sfx` is a suffix of `s`.
pub open spec fn ends_with(s: Seq<char>, sfx: Seq<char>) -> bool {
    sfx.len() <= s.len() && s.subrange(s.len() - sfx.len(), s.len() as int) == sfx
}

/// A path joined from a parent path and an entry name.
pub open spec fn join(prefix: Seq<char>, name: Seq<char>) -> Seq<char> {
    prefix + "/"@ + name
}

/// Whether a regular file named `name` is emitted under filter `f`.
pub open spec fn file_matches(name: Seq<char>, f: FilterV) -> bool {
    match f {
        FilterV::AllFiles => true,
        FilterV::AllDirs => false,
        FilterV::SuffixCaseInsensitive(sfx) => ends_with(upper_of(name), upper_of(sfx)),
    }
}

/// The paths a traversal emits for the single entry `e` sitting under
/// `prefix`: a matching file's path, or, for a directory, its own path
/// (under `AllDirs` only, parent before children) followed by whatever
/// its children emit.
pub open spec fn walk_entry(e: Entry, prefix: Seq<char>, f: FilterV) -> Seq<Seq<char>>
    decreases e, 0int,
{
    match e {
        Entry::File { name, .. } => if file_matches(name@, f) {
            seq![join(prefix, name@)]
        } else {
            Seq::empty()
        },
        Entry::Dir { name, children } => {
            let p = join(prefix, name@);
            (if f is AllDirs {
                seq![p]
            } else {
                Seq::empty()
            }) + walk_seq(children@, 0, p, f)
        },
    }
}

/// The paths emitted for the entries of `es` from index `i` on.
pub open spec fn walk_seq(es: Seq<Entry>, i: int, prefix: Seq<char>, f: FilterV) -> Seq<
    Seq<char>,
>
    decreases es, es.len() - i,
{
    if 0 <= i < es.len() {
        walk_entry(es[i], prefix, f) + walk_seq(es, i + 1, prefix, f)
    } else {
        Seq::empty()
    }
}

/// The paths emitted for the first `i` entries of `es`.
pub open spec fn walk_upto(es: Seq<Entry>, i: int, prefix: Seq<char>, f: FilterV) -> Seq<
    Seq<char>,
>
    decreases i,
{
    if 0 < i <= es.len() {
        walk_upto(es, i - 1, prefix, f) + walk_entry(es[i - 1], prefix, f)
    } else {
        Seq::empty()
    }
}

/// The views of a vector of strings.
pub open spec fn views_of(ss: Seq<String>) -> Seq<Seq<char>> {
    ss.map_values(|s: String| s@)
}

/// The paths of the regular files directly inside a directory whose
/// children are `es`, from index `i` on: one level, no recursion.
pub open spec fn direct_files(es: Seq<Entry>, i: int, prefix: Seq<char>) -> Seq<Seq<char>>
    decreases es.len() - i,
{
    if 0 <= i < es.len() {
        (match es[i] {
            Entry::File { name, .. } => seq![join(prefix, name@)],
            Entry::Dir { .. } => Seq::empty(),
        }) + direct_files(es, i + 1, prefix)
    } else {
        Seq::empty()
    }
}

} // verus!
