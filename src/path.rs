//! Paths as strings, and joining a relative path onto a directory.
use vstd::prelude::*;

verus! {

/// The directory written so that a relative path can be appended to it:
/// nothing for the empty path (the current directory), the directory itself
/// if it already ends in `/`, else the directory and a `/`.
pub open spec fn dir_prefix(dir: Seq<char>) -> Seq<char> {
    if dir.len() == 0 || dir.last() == '/' {
        dir
    } else {
        dir.push('/')
    }
}

/// A relative path resolved against a directory.
pub open spec fn joined(dir: Seq<char>, rel: Seq<char>) -> Seq<char> {
    dir_prefix(dir) + rel
}

/// Every path resolved against `dir` lies under `dir_prefix(dir)`.
pub proof fn lemma_joined_under(dir: Seq<char>, rel: Seq<char>)
    ensures
        dir_prefix(dir).is_prefix_of(joined(dir, rel)),
{
    assert(joined(dir, rel).subrange(0, dir_prefix(dir).len() as int) =~= dir_prefix(dir));
}

/// Resolves the relative path `rel` against the directory `dir`.
pub fn join(dir: &str, rel: &str) -> (r: String)
    ensures
        r@ == joined(dir@, rel@),
{
    let mut r = dir.to_owned();
    let n = dir.unicode_len();
    if n > 0 && dir.get_char(n - 1) != '/' {
        r.append("/");
        proof {
            reveal_strlit("/");
        }
        assert(r@ =~= dir@.push('/'));
    }
    r.append(rel);
    r
}

} // verus!
