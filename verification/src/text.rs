//! What the library needs to know of `String` beyond what `vstd` states.

use vstd::prelude::*;

verus! {

/// `String::push_str`: appends the characters of `string` to `s`.
pub assume_specification[ String::push_str ](s: &mut String, string: &str)
    ensures
        final(s)@ == old(s)@ + string@,
;

} // verus!
