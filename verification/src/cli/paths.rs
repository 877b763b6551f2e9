//! Unix path joining for the vault paths the CLI reports.
use crate::text::{chars_of, push_char, push_str};
use vstd::prelude::*;

verus! {

pub open spec fn is_absolute(p: Seq<char>) -> bool {
    p.len() > 0 && p[0] == '/'
}

/// `Path::join` on Unix: an absolute path replaces the base; otherwise the
/// two are joined with one separator.
pub open spec fn joined(base: Seq<char>, p: Seq<char>) -> Seq<char> {
    if is_absolute(p) {
        p
    } else if base.len() == 0 || base.last() == '/' {
        base + p
    } else {
        base + seq!['/'] + p
    }
}

pub fn join_path(base: &str, path: &str) -> (r: String)
    ensures
        r@ == joined(base@, path@),
{
    let p = chars_of(path);
    if p.len() > 0 && p[0] == '/' {
        return path.to_owned();
    }
    let b = chars_of(base);
    let mut out = base.to_owned();
    if b.len() > 0 && b[b.len() - 1] != '/' {
        push_char(&mut out, '/');
    }
    push_str(&mut out, path);
    proof {
        if b@.len() > 0 && b@.last() != '/' {
            assert(out@ =~= base@ + seq!['/'] + path@);
        } else {
            assert(out@ =~= base@ + path@);
        }
    }
    out
}

/// `path` itself when absolute, else `path` under `base`.
pub fn absolute_from(base: &str, path: &str) -> (r: String)
    ensures
        r@ == joined(base@, path@),
{
    join_path(base, path)
}

/// Where the name of the current session is kept inside a `.margins` directory.
pub fn current_pointer_path(margins_dir: &str) -> (r: String)
    ensures
        r@ == joined(margins_dir@, "current"@),
{
    join_path(margins_dir, "current")
}

} // verus!
