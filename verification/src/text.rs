//! What the codec needs of `String` and `str` beyond what `vstd` specifies.

use vstd::prelude::*;

verus! {

/// `String::push` of the standard library, which this crate does not verify:
/// the string afterwards is the string before with `c` as one more character
/// at its end.
pub assume_specification[ String::push ](text: &mut String, c: char)
    ensures
        final(text)@ == old(text)@.push(c),
;

/// The characters of `text`, in their order.
pub fn chars_of(text: &str) -> (chars: Vec<char>)
    ensures
        chars@ == text@,
{
    let mut chars: Vec<char> = Vec::new();
    for c in walk: text.chars()
        invariant
            chars@ == walk.seq().take(walk.index() as int),
    {
        chars.push(c);
    }
    chars
}

} // verus!
