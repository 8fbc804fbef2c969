//! Small checks shared by the parsers and runners.
use crate::text::{is_ident_char, is_ident_char_exec, is_ident_start, is_ident_start_exec, to_chars};
use vstd::prelude::*;

verus! {

/// A bash identifier: not empty, starts with `[a-zA-Z_]`, and holds only
/// `[a-zA-Z0-9_]`.
pub open spec fn is_bash_identifier(s: Seq<char>) -> bool {
    &&& s.len() > 0
    &&& is_ident_start(s[0])
    &&& forall|i: int| 0 <= i < s.len() ==> is_ident_char(#[trigger] s[i])
}

/// Check if a string is a valid bash identifier.
pub fn is_valid_bash_identifier(name: &str) -> (r: bool)
    ensures
        r == is_bash_identifier(name@),
{
    let cs = to_chars(name);
    if cs.len() == 0 {
        return false;
    }
    if !is_ident_start_exec(cs[0]) {
        return false;
    }
    let mut i: usize = 0;
    while i < cs.len()
        invariant
            i <= cs@.len(),
            cs@ == name@,
            forall|k: int| 0 <= k < i ==> is_ident_char(#[trigger] cs@[k]),
        decreases cs.len() - i,
    {
        if !is_ident_char_exec(cs[i]) {
            return false;
        }
        i = i + 1;
    }
    true
}

} // verus!
