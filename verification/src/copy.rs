//! Tree-copy planning: walking a source tree in lock-step with the
//! traversal and emitting, in order, the directories to create and the
//! files to copy under a destination root.
//!
//! The surrounding application executes the plan fail-fast, copying
//! each file byte-for-byte with a durable flush; a failure mid-plan
//! leaves the destination partially populated, which is a documented
//! limitation.
use vstd::prelude::*;
use crate::model::Entry;
use crate::model::FsError;
use crate::model::Root;
use crate::model::join;
use crate::text::join_path;

verus! {

/// One step of a copy plan: create a destination directory (parents
/// first), or copy one file byte-for-byte from `src` to `dst`.
pub enum CopyAction {
    MkDir { dst: String },
    CopyFile { src: String, dst: String },
}

/// The mathematical form of a copy step.
pub enum ActionV {
    MkDir(Seq<char>),
    CopyFile(Seq<char>, Seq<char>),
}

impl View for CopyAction {
    type V = ActionV;

    open spec fn view(&self) -> ActionV {
        match self {
            CopyAction::MkDir { dst } => ActionV::MkDir(dst@),
            CopyAction::CopyFile { src, dst } => ActionV::CopyFile(src@, dst@),
        }
    }
}

/// The views of a vector of copy steps.
pub open spec fn action_views(s: Seq<CopyAction>) -> Seq<ActionV> {
    s.map_values(|a: CopyAction| a@)
}

/// The plan for the single entry `e` sitting under source path `sp`
/// and destination path `dp`: a file is copied; a directory is created
/// before its contents are planned.
pub open spec fn plan_entry(e: Entry, sp: Seq<char>, dp: Seq<char>) -> Seq<ActionV>
    decreases e, 0int,
{
    match e {
        Entry::File { name, .. } => seq![
            ActionV::CopyFile(join(sp, name@), join(dp, name@)),
        ],
        Entry::Dir { name, children } => seq![ActionV::MkDir(join(dp, name@))] + plan_seq(
            children@,
            0,
            join(sp, name@),
            join(dp, name@),
        ),
    }
}

/// The plan for the entries of `es` from index `i` on.
pub open spec fn plan_seq(es: Seq<Entry>, i: int, sp: Seq<char>, dp: Seq<char>) -> Seq<ActionV>
    decreases es, es.len() - i,
{
    if 0 <= i < es.len() {
        plan_entry(es[i], sp, dp) + plan_seq(es, i + 1, sp, dp)
    } else {
        Seq::empty()
    }
}

/// The plan for the first `i` entries of `es`.
pub open spec fn plan_upto(es: Seq<Entry>, i: int, sp: Seq<char>, dp: Seq<char>) -> Seq<ActionV>
    decreases i,
{
    if 0 < i <= es.len() {
        plan_upto(es, i - 1, sp, dp) + plan_entry(es[i - 1], sp, dp)
    } else {
        Seq::empty()
    }
}

/// Pushing a step appends its view to the views of the vector.
proof fn lemma_action_views_push(s: Seq<CopyAction>, x: CopyAction)
    ensures
        action_views(s.push(x)) == action_views(s) + seq![x@],
{
    assert(action_views(s.push(x)) =~= action_views(s) + seq![x@]);
}

/// A plan for `es` splits at any index `i` into the part before and
/// the part from `i` on.
proof fn lemma_plan_split(es: Seq<Entry>, i: int, sp: Seq<char>, dp: Seq<char>)
    requires
        0 <= i <= es.len(),
    ensures
        plan_seq(es, 0, sp, dp) == plan_upto(es, i, sp, dp) + plan_seq(es, i, sp, dp),
    decreases i,
{
    if i == 0 {
        assert(plan_seq(es, 0, sp, dp) =~= plan_upto(es, 0, sp, dp) + plan_seq(es, 0, sp, dp));
    } else {
        lemma_plan_split(es, i - 1, sp, dp);
        assert(plan_upto(es, i, sp, dp) + plan_seq(es, i, sp, dp) =~= plan_upto(es, i - 1, sp, dp)
            + (plan_entry(es[i - 1], sp, dp) + plan_seq(es, i, sp, dp)));
    }
}

/// Appends to `out` the plan for the single entry `e`.
fn plan_into(e: &Entry, sp: &str, dp: &str, out: &mut Vec<CopyAction>)
    ensures
        action_views(final(out)@) == action_views(old(out)@) + plan_entry(*e, sp@, dp@),
    decreases *e, 0int,
{
    match e {
        Entry::File { name, .. } => {
            let a = CopyAction::CopyFile {
                src: join_path(sp, name.as_str()),
                dst: join_path(dp, name.as_str()),
            };
            proof {
                lemma_action_views_push(out@, a);
            }
            out.push(a);
        },
        Entry::Dir { name, children } => {
            let s = join_path(sp, name.as_str());
            let d = join_path(dp, name.as_str());
            let a = CopyAction::MkDir { dst: d.clone() };
            proof {
                lemma_action_views_push(out@, a);
            }
            out.push(a);
            plan_children(children, s.as_str(), d.as_str(), out);
            assert(action_views(out@) =~= action_views(old(out)@) + (seq![
                ActionV::MkDir(join(dp@, name@)),
            ] + plan_seq(children@, 0, s@, d@)));
        },
    }
}

/// Appends to `out` the plan for all the entries of `children`.
fn plan_children(children: &Vec<Entry>, sp: &str, dp: &str, out: &mut Vec<CopyAction>)
    ensures
        action_views(final(out)@) == action_views(old(out)@) + plan_seq(children@, 0, sp@, dp@),
    decreases *children, 1int,
{
    let ghost base: Seq<ActionV> = action_views(out@);
    let mut j: usize = 0;
    while j < children.len()
        invariant
            j <= children.len(),
            action_views(out@) == base + plan_upto(children@, j as int, sp@, dp@),
        decreases children.len() - j,
    {
        plan_into(&children[j], sp, dp, out);
        proof {
            assert(plan_upto(children@, j + 1, sp@, dp@) == plan_upto(children@, j as int, sp@, dp@)
                + plan_entry(children@[j as int], sp@, dp@));
            assert(base + plan_upto(children@, j + 1, sp@, dp@) =~= (base + plan_upto(
                children@,
                j as int,
                sp@,
                dp@,
            )) + plan_entry(children@[j as int], sp@, dp@));
        }
        j += 1;
    }
    proof {
        lemma_plan_split(children@, children@.len() as int, sp@, dp@);
        assert(base + plan_seq(children@, 0, sp@, dp@) =~= base + plan_upto(
            children@,
            children@.len() as int,
            sp@,
            dp@,
        ));
    }
}

/// The plan that copies the tree under `root` into the existing
/// directory `dst`: for each source entry in traversal order, a
/// directory is created (parent before its contents) or a file is
/// copied to the mirrored path under `dst`.
///
/// The plan is executed fail-fast: the first failing step aborts the
/// rest, and nothing already copied is rolled back.
pub fn copy_dir(root: &Root, dst: &str) -> (r: Result<Vec<CopyAction>, FsError>)
    ensures
        match *root {
            Root::Missing { path } => (r matches Err(FsError::NotFound { path: p })
                && p@ == path@),
            Root::Found { tree } => match tree {
                Entry::File { name, .. } => (r matches Err(FsError::NotADirectory { path: p })
                    && p@ == name@),
                Entry::Dir { name, children } => (r matches Ok(acts) && action_views(acts@)
                    == plan_seq(children@, 0, name@, dst@)),
            },
        },
{
    match root {
        Root::Missing { path } => Err(FsError::NotFound { path: path.clone() }),
        Root::Found { tree } => match tree {
            Entry::File { name, .. } => Err(FsError::NotADirectory { path: name.clone() }),
            Entry::Dir { name, children } => {
                let mut out: Vec<CopyAction> = Vec::new();
                plan_children(children, name.as_str(), dst, &mut out);
                assert(action_views(out@) =~= plan_seq(children@, 0, name@, dst@));
                Ok(out)
            },
        },
    }
}

} // verus!
