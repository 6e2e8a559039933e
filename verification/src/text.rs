//! Lowercasing of text through the standard library.
//!
//! The income/expense type tokens are matched case-insensitively, as the
//! boundary accepts them in any capitalization.

use vstd::prelude::*;

verus! {

/// What `str::to_lowercase` returns: the Unicode lowercase form of the text.
pub uninterp spec fn lower_of(s: Seq<char>) -> Seq<char>;

/// ASCII lowering of one character: the letters `A`..`Z` move down to
/// `a`..`z`, everything else stays.
pub open spec fn ascii_lower_char(c: char) -> char {
    if 'A' <= c && c <= 'Z' {
        (((c as u8) + 32) as u8) as char
    } else {
        c
    }
}

/// Relies on `str::to_lowercase`: the result depends on the characters
/// alone, and on ASCII text it lowers exactly the letters `A`..`Z`.
#[verifier::external_body]
pub fn lowercase(s: &str) -> (r: String)
    ensures
        r@ == lower_of(s@),
        (forall|i: int| 0 <= i < s@.len() ==> (s@[i] as u32) < 128) ==> r@ == s@.map_values(
            |c: char| ascii_lower_char(c),
        ),
{
    s.to_lowercase()
}

} // verus!
