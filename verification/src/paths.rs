//! Filesystem paths as text, joined the way `PathBuf::join` joins them on
//! Unix: an absolute component replaces the base, otherwise a single `/`
//! separates the two unless the base is empty or already ends in `/`.
use vstd::prelude::*;

use crate::text::{chars_of, push_chars, string_of};

verus! {

broadcast use vstd::string::group_string_axioms;

pub open spec fn join(base: Seq<char>, p: Seq<char>) -> Seq<char> {
    if p.len() > 0 && p[0] == '/' {
        p
    } else if base.len() == 0 || base.last() == '/' {
        base + p
    } else {
        base + seq!['/'] + p
    }
}

pub fn join_chars(base: &Vec<char>, p: &Vec<char>) -> (r: Vec<char>)
    ensures
        r@ == join(base@, p@),
{
    let mut out: Vec<char> = Vec::new();
    if p.len() > 0 && p[0] == '/' {
        push_chars(&mut out, p);
        proof {
            assert(out@ =~= p@);
        }
    } else if base.len() == 0 || base[base.len() - 1] == '/' {
        push_chars(&mut out, base);
        push_chars(&mut out, p);
        proof {
            assert(out@ =~= base@ + p@);
        }
    } else {
        push_chars(&mut out, base);
        out.push('/');
        push_chars(&mut out, p);
        proof {
            assert(out@ =~= base@ + seq!['/'] + p@);
        }
    }
    out
}

/// `Path::new(base).join(p)`, as text.
pub fn join_path(base: &str, p: &str) -> (r: String)
    ensures
        r@ == join(base@, p@),
{
    let b = chars_of(base);
    let q = chars_of(p);
    let j = join_chars(&b, &q);
    string_of(&j)
}

} // verus!
