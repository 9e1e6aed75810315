//! Character classification and small string utilities used by the scanner.

use vstd::prelude::*;

verus! {

use vstd::string::StrSliceExecFns;

/// A decimal digit `0`–`9`.
pub open spec fn is_digit(c: char) -> bool {
    48 <= (c as u32) && (c as u32) <= 57
}

/// An ASCII letter or underscore: the characters that may begin an
/// identifier.
pub open spec fn is_ident_start(c: char) -> bool {
    (65 <= (c as u32) && (c as u32) <= 90)
    || (97 <= (c as u32) && (c as u32) <= 122)
    || c == '_'
}

/// An ASCII digit or letter.
pub open spec fn is_ascii_alphanumeric(c: char) -> bool {
    is_digit(c)
    || (65 <= (c as u32) && (c as u32) <= 90)
    || (97 <= (c as u32) && (c as u32) <= 122)
}

/// Names the classification that `char::is_alphanumeric` applies to
/// characters beyond ASCII. The result depends on the character alone.
pub uninterp spec fn unicode_alphanumeric(c: char) -> bool;

/// A character that may continue an identifier once one has begun:
/// an alphanumeric character (by Unicode's classification) or underscore.
pub open spec fn is_ident_cont(c: char) -> bool {
    c == '_' || if (c as u32) < 128 {
        is_ascii_alphanumeric(c)
    } else {
        unicode_alphanumeric(c)
    }
}

/// Relies on `char::is_alphanumeric`: a deterministic classification by
/// Unicode character properties, which on the ASCII range accepts exactly
/// the digits and letters.
#[verifier::external_body]
pub(crate) fn char_is_alphanumeric(c: char) -> (r: bool)
    ensures
        r == if (c as u32) < 128 {
            is_ascii_alphanumeric(c)
        } else {
            unicode_alphanumeric(c)
        },
{
    c.is_alphanumeric()
}

/// Whether `c` may continue an identifier.
pub(crate) fn ident_cont(c: char) -> (r: bool)
    ensures
        r == is_ident_cont(c),
{
    c == '_' || char_is_alphanumeric(c)
}

/// Whether `c` may begin an identifier.
pub(crate) fn ident_start(c: char) -> (r: bool)
    ensures
        r == is_ident_start(c),
{
    let u = c as u32;
    (65 <= u && u <= 90) || (97 <= u && u <= 122) || c == '_'
}

/// Whether `c` is a decimal digit.
pub(crate) fn digit(c: char) -> (r: bool)
    ensures
        r == is_digit(c),
{
    let u = c as u32;
    48 <= u && u <= 57
}

/// Character-by-character string equality, proved against the views.
pub(crate) fn str_eq(a: &str, b: &str) -> (r: bool)
    ensures
        r == (a@ == b@),
{
    let alen = a.unicode_len();
    let blen = b.unicode_len();
    if alen != blen {
        return false;
    }
    let mut i: usize = 0;
    while i < alen
        invariant
            a@.len() == alen,
            b@.len() == blen,
            alen == blen,
            0 <= i <= alen,
            forall|j: int| 0 <= j < i ==> a@[j] == b@[j],
        decreases alen - i,
    {
        if a.get_char(i) != b.get_char(i) {
            return false;
        }
        i = i + 1;
    }
    proof {
        assert(a@ =~= b@);
    }
    true
}

} // verus!
