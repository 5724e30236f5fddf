//! The character whitelist that a file path must meet before it reaches the
//! file system.
use vstd::prelude::*;
use crate::chars::{alnum, chars_of, is_ascii_alnum};

verus! {

/// A character allowed in a file path: an ASCII letter or digit, `/`, `.`,
/// `\`, `_` or `-`.
pub open spec fn is_path_char(c: char) -> bool {
    is_ascii_alnum(c) || c == '/' || c == '.' || c == '\\' || c == '_' || c == '-'
}

/// A path is valid when it is non-empty and every character is allowed.
pub open spec fn is_valid_path(p: Seq<char>) -> bool {
    p.len() > 0 && forall|i: int| 0 <= i < p.len() ==> #[trigger] is_path_char(p[i])
}

fn path_char(c: char) -> (r: bool)
    ensures
        r == is_path_char(c),
{
    alnum(c) || c == '/' || c == '.' || c == '\\' || c == '_' || c == '-'
}

/// Whether `file_path` is non-empty and made only of characters allowed in a
/// path. Only the characters are checked: `..` segments pass.
pub fn is_valid_file_path(file_path: &str) -> (r: bool)
    ensures
        r == is_valid_path(file_path@),
{
    let cs = chars_of(file_path);
    if cs.len() == 0 {
        return false;
    }
    let mut i: usize = 0;
    while i < cs.len()
        invariant
            cs@ == file_path@,
            i <= cs.len(),
            forall|j: int| 0 <= j < i ==> #[trigger] is_path_char(cs@[j]),
        decreases cs.len() - i,
    {
        if !path_char(cs[i]) {
            return false;
        }
        i += 1;
    }
    true
}

} // verus!
