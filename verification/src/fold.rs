//! Case folding for case-insensitive comparison.

use vstd::prelude::*;

verus! {

/// The lowercase form of a character sequence, exactly as `str::to_lowercase`
/// computes it. The full Unicode lowercase mapping is far too large to spell
/// out here, so the result is only named; it is a function of the characters
/// alone.
pub uninterp spec fn lower_of(s: Seq<char>) -> Seq<char>;

/// Relies on `str::to_lowercase`: it returns the lowercase equivalent of the
/// slice, determined by the slice's characters alone, and an empty slice
/// stays empty.
pub assume_specification[ str::to_lowercase ](s: &str) -> (r: String)
    ensures
        r@ == lower_of(s@),
        s@.len() == 0 ==> r@.len() == 0,
;

} // verus!
