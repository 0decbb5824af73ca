//! What the command line decides: the roots to scan and whether to only check.
use vstd::prelude::*;

verus! {

/// The parsed command line.
#[derive(Debug)]
pub struct Cli {
    /// Paths to scan for cleanable projects.
    pub paths: Vec<String>,
    /// Only show reclaimable space, without removing anything.
    pub check: bool,
}

/// The elements of `s` whose place is marked in `keep`, in order.
pub open spec fn kept(s: Seq<Seq<char>>, keep: Seq<bool>) -> Seq<Seq<char>>
    decreases s.len(),
{
    if s.len() == 0 {
        Seq::empty()
    } else if keep.len() >= s.len() && keep[s.len() - 1] {
        kept(s.drop_last(), keep).push(s.last())
    } else {
        kept(s.drop_last(), keep)
    }
}

/// The command line from the paths and the check flag as given.
pub fn parse_cli(paths: Vec<String>, check: bool) -> (r: Cli)
    ensures
        r.check == check,
        paths@.len() > 0 ==> r.paths@ == paths@,
        paths@.len() == 0 ==> r.paths@.len() == 1 && r.paths@[0]@ == "."@,
{
    if paths.len() == 0 {
        Cli { paths: vec![String::from_str(".")], check }
    } else {
        Cli { paths, check }
    }
}

/// The roots that are walked: those that are directories, in order. A root
/// that does not exist, or is not a directory, has nothing to clean and is
/// passed over. `is_dir` tells for each root whether it is a directory.
pub fn walkable_roots(roots: &Vec<String>, is_dir: &Vec<bool>) -> (r: Vec<String>)
    requires
        roots@.len() == is_dir@.len(),
    ensures
        r@.map_values(|s: String| s@) == kept(roots@.map_values(|s: String| s@), is_dir@),
{
    let ghost all = roots@.map_values(|s: String| s@);
    let mut r: Vec<String> = Vec::new();
    for i in 0..roots.len()
        invariant
            roots@.len() == is_dir@.len(),
            all == roots@.map_values(|s: String| s@),
            r@.map_values(|s: String| s@) == kept(all.take(i as int), is_dir@),
    {
        let ghost before = r@;
        assert(all.take(i + 1).drop_last() =~= all.take(i as int));
        if is_dir[i] {
            r.push(roots[i].clone());
            assert(r@.map_values(|s: String| s@) =~= before.map_values(|s: String| s@).push(all[i as int]));
        }
    }
    assert(all.take(roots.len() as int) =~= all);
    r
}

} // verus!
