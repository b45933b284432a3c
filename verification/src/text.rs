use vstd::prelude::*;

verus! {

/// Whether `s` spells exactly the text `expected`.
pub fn text_is(s: &str, expected: &str) -> (r: bool)
    ensures
        r == (s@ == expected@),
{
    let a: String = s.to_owned();
    let b: String = expected.to_owned();
    a == b
}

} // verus!
