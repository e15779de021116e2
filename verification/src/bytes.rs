//! Comparing strings of bytes.

use vstd::prelude::*;
use vstd::string::StringSliceAdditionalSpecFns;

verus! {

/// Whether two slices hold the same bytes.
pub fn same_bytes(left: &[u8], right: &[u8]) -> (same: bool)
    ensures
        same == (left@ == right@),
{
    if left.len() != right.len() {
        return false;
    }
    let mut index: usize = 0;
    while index < left.len()
        invariant
            index <= left@.len() == right@.len(),
            forall|at: int| 0 <= at < index ==> left@[at] == right@[at],
        decreases left@.len() - index,
    {
        if left[index] != right[index] {
            return false;
        }
        index = index + 1;
    }
    assert(left@ =~= right@);
    true
}

/// Whether `bytes` holds the bytes of `text`.
pub fn is_text(bytes: &[u8], text: &str) -> (same: bool)
    ensures
        same == (bytes@ == text.spec_bytes()),
{
    same_bytes(bytes, text.as_bytes())
}

} // verus!
