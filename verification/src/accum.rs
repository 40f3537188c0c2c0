//! A caller-owned accumulator of visited paths. Repeated traversals
//! that want cross-call accumulation pass one of these in explicitly;
//! the library holds no shared state.
use vstd::prelude::*;

verus! {

/// The set of paths visited so far. Inserting a path that is already
/// present leaves the collection as it was.
pub struct FileInfoList {
    entries: Vec<String>,
}

impl View for FileInfoList {
    type V = Set<Seq<char>>;

    closed spec fn view(&self) -> Set<Seq<char>> {
        self.entries@.map_values(|s: String| s@).to_set()
    }
}

impl FileInfoList {
    /// An empty collection.
    pub fn new() -> (r: FileInfoList)
        ensures
            r@ == Set::<Seq<char>>::empty(),
    {
        let r = FileInfoList { entries: Vec::new() };
        proof {
            assert(r@ =~= Set::<Seq<char>>::empty());
        }
        r
    }

    /// Whether `path` has been visited.
    pub fn contains(&self, path: &str) -> (r: bool)
        ensures
            r == self@.contains(path@),
    {
        let p = String::from_str(path);
        let ghost vs: Seq<Seq<char>> = self.entries@.map_values(|s: String| s@);
        let mut k: usize = 0;
        while k < self.entries.len()
            invariant
                k <= self.entries.len(),
                vs == self.entries@.map_values(|s: String| s@),
                p@ == path@,
                forall|i: int| 0 <= i < k ==> vs[i] != path@,
            decreases self.entries.len() - k,
        {
            if self.entries[k] == p {
                proof {
                    assert(vs[k as int] == path@);
                    assert(vs.contains(path@));
                }
                return true;
            }
            k += 1;
        }
        proof {
            assert(forall|i: int| 0 <= i < vs.len() ==> vs[i] != path@);
            assert(!vs.contains(path@));
        }
        false
    }
}

/// Records one visited path in the caller's collection: afterwards the
/// collection holds exactly what it held before, and `path`.
pub fn visit(list: &mut FileInfoList, path: &str)
    ensures
        final(list)@ == old(list)@.insert(path@),
{
    if !list.contains(path) {
        let ghost before: Seq<String> = list.entries@;
        list.entries.push(String::from_str(path));
        proof {
            let svs = before.map_values(|s: String| s@);
            let nvs = list.entries@.map_values(|s: String| s@);
            assert(nvs =~= svs.push(path@));
            assert forall|e: Seq<char>| #![trigger nvs.contains(e)]
                nvs.contains(e) <==> (svs.contains(e) || e == path@) by {
                vstd::seq_lib::lemma_seq_contains_after_push(svs, path@, e);
            }
            assert(list@ =~= old(list)@.insert(path@));
        }
    } else {
        proof {
            assert(list@ =~= old(list)@.insert(path@));
        }
    }
}

} // verus!
