//! The characters of decimal amounts.

use vstd::prelude::*;

verus! {

pub open spec fn is_ascii_digit(c: char) -> bool {
    '0' <= c <= '9'
}

/// A character that may appear in the number of a decimal literal.
pub open spec fn is_numeric_char(c: char) -> bool {
    is_ascii_digit(c) || c == '.'
}

/// How many leading characters of `s` are digits or points.
pub open spec fn numeric_prefix_len(s: Seq<char>) -> nat
    decreases s.len(),
{
    if s.len() > 0 && is_numeric_char(s[0]) {
        1 + numeric_prefix_len(s.drop_first())
    } else {
        0
    }
}

} // verus!
