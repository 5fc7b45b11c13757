use vstd::prelude::*;

verus! {

/// `==` on `str`, as the standard library documents it: two string slices are
/// equal exactly when they hold the same characters. This is believed, not
/// proved.
pub assume_specification[ <str as PartialEq>::eq ](a: &str, b: &str) -> (r: bool)
    ensures
        r == (a@ == b@),
;

} // verus!
