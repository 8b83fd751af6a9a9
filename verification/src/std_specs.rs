//! What the engine needs of the standard library beyond what vstd specifies.

use vstd::prelude::*;

verus! {

/// `String::push` of the standard library, taken on trust: it appends the
/// given character to the end of the string and changes nothing else of it.
pub assume_specification[ String::push ](s: &mut String, ch: char)
    ensures
        final(s)@ == old(s)@.push(ch),
;

} // verus!
