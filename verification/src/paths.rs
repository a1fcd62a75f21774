//! Paths as text, with `/` as the separator.

use crate::text::{append_chars, chars_of, string_of};
use vstd::prelude::*;

verus! {

/// Whether a path starts at the root.
pub open spec fn is_absolute(path: Seq<char>) -> bool {
    path.len() > 0 && path[0] == '/'
}

/// `base` extended by `rel`. An absolute `rel` stands for itself. Otherwise
/// a separator is put between the two, unless `base` is empty or ends in
/// one.
pub open spec fn joined(base: Seq<char>, rel: Seq<char>) -> Seq<char> {
    if is_absolute(rel) {
        rel
    } else if base.len() == 0 || base.last() == '/' {
        base + rel
    } else {
        base.push('/') + rel
    }
}

/// Whether a path starts at the root.
pub fn path_is_absolute(path: &str) -> (r: bool)
    ensures
        r == is_absolute(path@),
{
    let chars = chars_of(path);
    chars.len() > 0 && chars[0] == '/'
}

/// `base` extended by `rel`.
pub fn join_path(base: &str, rel: &str) -> (r: String)
    ensures
        r@ == joined(base@, rel@),
{
    let tail = chars_of(rel);
    if tail.len() > 0 && tail[0] == '/' {
        return string_of(&tail);
    }
    let mut out = chars_of(base);
    let n = out.len();
    if n > 0 && out[n - 1] != '/' {
        out.push('/');
    }
    append_chars(&mut out, &tail);
    string_of(&out)
}

} // verus!
