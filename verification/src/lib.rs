//! Exhaustive equivalence checking of boolean expressions.
//!
//! A `Document` holds a table of named boolean variables and a sequence of
//! terms over them.  The checker enumerates every assignment of the
//! variables with a ripple-carry counter and reports whether all terms
//! evaluate to the same value under every assignment.  Two interchangeable
//! enumeration strategies are provided: a scalar one that visits one
//! assignment per step, and a bit-parallel one that packs 32 assignments
//! into the bit lanes of one machine word per variable.

pub mod builder;
pub mod counter;
pub mod document;
pub mod eval;
pub mod laws;
pub mod neutral;
pub mod ops;
pub mod table;
pub mod term;
pub mod words;

use vstd::prelude::*;

verus! {

/// Every element of the sequence equals every other (vacuously true of an
/// empty or one-element sequence).
pub open spec fn all_eq<V>(s: Seq<V>) -> bool {
    forall|i: int, j: int| 0 <= i < s.len() && 0 <= j < s.len() ==> s[i] == s[j]
}

/// Whether all words of a slice are the same value.
pub fn is_all_same(slice: &[u32]) -> (r: bool)
    ensures
        r == all_eq(slice@),
{
    let len = slice.len();
    let mut i: usize = 0;
    #[verifier::loop_isolation(false)]
    while i < len
        invariant
            i <= len,
            forall|j: int| 0 <= j < i ==> #[trigger] slice@[j] == slice@[0],
        decreases len - i,
    {
        if slice[i] != slice[0] {
            return false;
        }
        i += 1;
    }
    true
}

/// Whether all truth values of a slice are the same value.
pub fn is_all_same_scalar(slice: &[bool]) -> (r: bool)
    ensures
        r == all_eq(slice@),
{
    let len = slice.len();
    let mut i: usize = 0;
    #[verifier::loop_isolation(false)]
    while i < len
        invariant
            i <= len,
            forall|j: int| 0 <= j < i ==> #[trigger] slice@[j] == slice@[0],
        decreases len - i,
    {
        if slice[i] != slice[0] {
            return false;
        }
        i += 1;
    }
    true
}

} // verus!
