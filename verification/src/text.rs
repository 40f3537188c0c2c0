//! String helpers for the traversal: uppercasing, suffix test, and
//! path joining.
use vstd::prelude::*;
use crate::model::ends_with;
use crate::model::join;
use crate::model::upper_of;

verus! {

/// Relies on str::to_uppercase: the Unicode uppercase form, a function
/// of the characters alone; an empty string stays empty.
#[verifier::external_body]
pub(crate) fn to_upper(s: &str) -> (r: String)
    ensures
        r@ == upper_of(s@),
        s@.len() == 0 ==> r@.len() == 0,
{
    s.to_uppercase()
}

/// Relies on str::ends_with: whether the characters of `sfx` are a
/// suffix of the characters of `s`.
#[verifier::external_body]
pub(crate) fn ends_with_str(s: &str, sfx: &str) -> (r: bool)
    ensures
        r == ends_with(s@, sfx@),
{
    s.ends_with(sfx)
}

/// The path of an entry named `name` inside the directory `prefix`.
pub fn join_path(prefix: &str, name: &str) -> (r: String)
    ensures
        r@ == join(prefix@, name@),
{
    let mut s = String::from_str(prefix);
    s.append("/");
    s.append(name);
    s
}

} // verus!
