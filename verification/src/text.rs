//! Small building blocks for assembling output lines character by character.

use vstd::prelude::*;

verus! {

/// Appends one character to a string.
///
/// Relies on `String::push`, which the standard library documents as
/// appending the given `char` to the end of the string.
#[verifier::external_body]
pub fn push_char(s: &mut String, c: char)
    ensures
        final(s)@ == old(s)@.push(c),
{
    s.push(c);
}

/// A string of `n` copies of the character `c`.
pub open spec fn repeated_chars(c: char, n: int) -> Seq<char> {
    Seq::new(n as nat, |i: int| c)
}

/// Builds the string holding `n` copies of `c`.
pub fn repeat_char(c: char, n: usize) -> (r: String)
    ensures
        r@ == repeated_chars(c, n as int),
{
    let mut r = String::new();
    let mut i: usize = 0;
    while i < n
        invariant
            i <= n,
            r@ == repeated_chars(c, i as int),
        decreases n - i,
    {
        push_char(&mut r, c);
        proof {
            assert(repeated_chars(c, i as int).push(c) =~= repeated_chars(c, i + 1 as int));
        }
        i = i + 1;
    }
    r
}

} // verus!
