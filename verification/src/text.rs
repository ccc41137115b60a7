use vstd::prelude::*;

verus! {

/// Relies on `String`'s `FromIterator<char>` impl: collecting an iterator of
/// chars yields the string holding exactly those chars in order.
#[verifier::external_body]
pub(crate) fn chars_to_string(chars: &Vec<char>) -> (r: String)
    ensures
        r@ == chars@,
{
    chars.iter().collect()
}

} // verus!
