//! Small operations on text.
use vstd::prelude::*;

verus! {

/// Whether `wanted` occurs in `text`.
pub fn contains_char(text: &str, wanted: char) -> (found: bool)
    ensures
        found == text@.contains(wanted),
{
    for c in it: text.chars()
        invariant
            it.seq() == text@,
            forall|i: int| 0 <= i < it.index() ==> text@[i] != wanted,
    {
        if c == wanted {
            assert(text@[it.index()] == wanted);
            return true;
        }
    }
    false
}

/// `context` followed by `detail`.
pub fn with_detail(context: &str, detail: &str) -> (message: String)
    ensures
        message@ == context@ + detail@,
{
    context.to_owned().concat(detail)
}

} // verus!
