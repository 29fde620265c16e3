//! Lists of strings as mathematics.

use vstd::prelude::*;

verus! {

/// The texts that a list of strings holds.
pub open spec fn texts_of(strings: Seq<String>) -> Seq<Seq<char>> {
    Seq::new(strings.len(), |i: int| strings[i]@)
}

} // verus!
