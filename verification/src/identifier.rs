//! The allow-list for names that are interpolated into statement text.

use vstd::prelude::*;
use vstd::string::*;

verus! {

/// An ASCII letter, an ASCII digit or an underscore.
pub open spec fn is_identifier_char(c: char) -> bool {
    ('a' <= c && c <= 'z') || ('A' <= c && c <= 'Z') || ('0' <= c && c <= '9') || c == '_'
}

/// A name is safe when it is not empty and every character is an identifier
/// character.
pub open spec fn valid_identifier(s: Seq<char>) -> bool {
    s.len() > 0 && forall|i: int| 0 <= i < s.len() ==> is_identifier_char(#[trigger] s[i])
}

/// Decides whether `c` may stand in an identifier.
pub fn identifier_char(c: char) -> (r: bool)
    ensures
        r == is_identifier_char(c),
{
    (c >= 'a' && c <= 'z') || (c >= 'A' && c <= 'Z') || (c >= '0' && c <= '9') || c == '_'
}

/// Decides whether `s` may stand as a table or column name in a statement.
pub fn is_valid_identifier(s: &str) -> (r: bool)
    ensures
        r == valid_identifier(s@),
{
    let n: usize = s.unicode_len();
    if n == 0 {
        return false;
    }
    let mut i: usize = 0;
    while i < n
        invariant
            n == s@.len(),
            i <= n,
            forall|k: int| 0 <= k < i ==> is_identifier_char(#[trigger] s@[k]),
        decreases n - i,
    {
        if !identifier_char(s.get_char(i)) {
            return false;
        }
        i += 1;
    }
    true
}

/// One character outside the allow-list makes a name invalid, wherever it
/// stands: a semicolon, a hyphen, a space, a quote.
pub proof fn lemma_unsafe_character_invalidates(s: Seq<char>, at: int)
    requires
        0 <= at < s.len(),
        !is_identifier_char(s[at]),
    ensures
        !valid_identifier(s),
{
}

} // verus!
