//! Unix path joining with `PathBuf::push` semantics.

use vstd::prelude::*;
use crate::text::{push_char, to_chars};
use vstd::string::*;

verus! {

/// `PathBuf::push(rel)` on `base`: an absolute `rel` replaces `base`;
/// otherwise a `/` is inserted unless `base` is empty or already ends in one.
pub open spec fn path_join_seq(base: Seq<char>, rel: Seq<char>) -> Seq<char> {
    if rel.len() > 0 && rel[0] == '/' {
        rel
    } else if base.len() == 0 || base.last() == '/' {
        base + rel
    } else {
        base + seq!['/'] + rel
    }
}

/// `Path::new(base).join(rel)`.
pub fn path_join(base: &str, rel: &str) -> (p: String)
    ensures
        p@ == path_join_seq(base@, rel@),
{
    let rv = to_chars(rel);
    if rv.len() > 0 && rv[0] == '/' {
        return String::from_str(rel);
    }
    let bv = to_chars(base);
    let mut p = String::from_str(base);
    if !(bv.len() == 0 || bv[bv.len() - 1] == '/') {
        push_char(&mut p, '/');
    }
    p.append(rel);
    p
}

} // verus!
