//! Small operations on texts and characters.

use vstd::prelude::*;

verus! {

/// Whether a text spells the given literal.
pub fn same_text(s: &String, literal: &str) -> (r: bool)
    ensures
        r == (s@ == literal@),
{
    let t = String::from_str(literal);
    *s == t
}

/// A fresh copy of a text.
pub fn copy_text(s: &String) -> (r: String)
    ensures
        r@ == s@,
{
    s.clone()
}

} // verus!
