use vstd::prelude::*;

verus! {

/// Relies on `String::push`, whose documentation says it appends the given
/// char to the end of the string.
pub assume_specification[ std::string::String::push ](s: &mut String, c: char)
    ensures
        final(s)@ == old(s)@ + seq![c],
;

} // verus!
