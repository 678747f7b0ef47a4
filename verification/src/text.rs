//! Text that counts as empty: nothing but white space.

use vstd::prelude::*;

verus! {

/// Whether a character is white space, as `char::is_whitespace` decides
/// it: the Unicode property `White_Space`.
pub uninterp spec fn is_whitespace(c: char) -> bool;

/// `char::is_whitespace`. Trusted: the result is the Unicode property that
/// [`is_whitespace`] names; the table behind it is std's.
#[verifier::external_body]
fn char_is_whitespace(c: char) -> (r: bool)
    ensures
        r == is_whitespace(c),
{
    c.is_whitespace()
}

/// Whether a text holds white space only. The empty text does.
pub open spec fn blank(s: Seq<char>) -> bool {
    forall|i: int| 0 <= i < s.len() ==> is_whitespace(#[trigger] s[i])
}

/// Whether `s` holds white space only, so that nothing is left of it once
/// the white space at its ends is cut off.
pub fn is_blank(s: &str) -> (r: bool)
    ensures
        r == blank(s@),
{
    for c in it: s.chars()
        invariant
            it.seq() == s@,
            forall|i: int| 0 <= i < it.index() ==> is_whitespace(#[trigger] s@[i]),
    {
        if !char_is_whitespace(c) {
            assert(!is_whitespace(s@[it.index()]));
            return false;
        }
    }
    true
}

} // verus!
