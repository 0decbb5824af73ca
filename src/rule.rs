//! A project rule: the paths that identify a project type and the paths
//! that may be removed from a directory of that type.
use vstd::prelude::*;

use crate::engine::{after_removal, matches_in, observed, step};
use crate::path::{dir_prefix, join, joined, lemma_joined_under};

verus! {

/// What a rule is, as values: its indicator paths, its removable paths and its label.
pub struct RuleModel {
    pub indicators: Seq<Seq<char>>,
    pub to_remove: Seq<Seq<char>>,
    pub label: Seq<char>,
}

impl RuleModel {
    /// Every path that must exist for the rule to fire: the indicators, then
    /// the removable paths.
    pub open spec fn required(self) -> Seq<Seq<char>> {
        self.indicators + self.to_remove
    }
}

/// Whether `p` has a `..` component starting at position `i`.
pub open spec fn parent_at(p: Seq<char>, i: int) -> bool {
    &&& 0 <= i && i + 1 < p.len()
    &&& p[i] == '.' && p[i + 1] == '.'
    &&& i == 0 || p[i - 1] == '/'
    &&& i + 2 == p.len() || p[i + 2] == '/'
}

/// Whether `p` has no `..` component from position `i` on.
pub open spec fn no_parent_from(p: Seq<char>, i: int) -> bool
    decreases p.len() - i,
{
    if i < 0 || i >= p.len() {
        true
    } else {
        !parent_at(p, i) && no_parent_from(p, i + 1)
    }
}

/// Whether `p` names something inside the directory it is resolved
/// against: it is not empty, not absolute, and has no `..` component.
pub open spec fn inside_relative(p: Seq<char>) -> bool {
    p.len() > 0 && p[0] != '/' && no_parent_from(p, 0)
}

/// Whether every path of `ps` stays inside the directory.
pub open spec fn all_inside(ps: Seq<Seq<char>>) -> bool {
    forall|i: int| 0 <= i < ps.len() ==> inside_relative(#[trigger] ps[i])
}

/// A path without a `..` component from position `i` on has none at any
/// position from `i` on.
pub proof fn lemma_no_parent(p: Seq<char>, i: int, k: int)
    requires
        no_parent_from(p, i),
        0 <= i <= k,
    ensures
        !parent_at(p, k),
    decreases k - i,
{
    if i < k && i < p.len() {
        lemma_no_parent(p, i + 1, k);
    }
}

/// The views of a sequence of strings.
pub open spec fn views(v: Seq<String>) -> Seq<Seq<char>> {
    v.map_values(|s: String| s@)
}

/// Each path of `rels` resolved against `dir`.
pub open spec fn all_joined(dir: Seq<char>, rels: Seq<Seq<char>>) -> Seq<Seq<char>> {
    rels.map_values(|p: Seq<char>| joined(dir, p))
}

/// Whether every observation is `true`.
pub open spec fn all_true(s: Seq<bool>) -> bool {
    forall|i: int| 0 <= i < s.len() ==> #[trigger] s[i]
}

/// One project type, held as plain data: a directory is recognised as such a
/// project when every indicator path and every removable path exists in it.
#[derive(Debug)]
pub struct Cleanable {
    indicators: Vec<String>,
    to_remove: Vec<String>,
    context: String,
}

impl Cleanable {
    /// Every indicator and every removable path stays inside the directory
    /// it is resolved against.
    #[verifier::type_invariant]
    spec fn paths_inside(&self) -> bool {
        all_inside(views(self.indicators@)) && all_inside(views(self.to_remove@))
    }
}

impl View for Cleanable {
    type V = RuleModel;

    closed spec fn view(&self) -> RuleModel {
        RuleModel {
            indicators: views(self.indicators@),
            to_remove: views(self.to_remove@),
            label: self.context@,
        }
    }
}

/// Resolves each path of `rels` against `dir`, appending the results to `out`.
fn push_joined(out: &mut Vec<String>, dir: &str, rels: &Vec<String>)
    ensures
        views(final(out)@) == views(old(out)@) + all_joined(dir@, views(rels@)),
{
    let ghost start = views(out@);
    for i in 0..rels.len()
        invariant
            views(out@) == start + all_joined(dir@, views(rels@)).take(i as int),
    {
        let p = join(dir, rels[i].as_str());
        let ghost before = out@;
        out.push(p);
        proof {
            assert(views(out@) =~= views(before).push(p@));
            assert(all_joined(dir@, views(rels@)).take(i + 1) =~= all_joined(
                dir@,
                views(rels@),
            ).take(i as int).push(p@));
            assert(views(out@) =~= start + all_joined(dir@, views(rels@)).take(i + 1));
        }
    }
    assert(all_joined(dir@, views(rels@)).take(rels.len() as int) =~= all_joined(
        dir@,
        views(rels@),
    ));
}

impl Cleanable {
    /// A rule from its indicator paths, its removable paths and its label.
    pub fn new(indicators: Vec<String>, to_remove: Vec<String>, context: String) -> (r: Cleanable)
        requires
            all_inside(views(indicators@)),
            all_inside(views(to_remove@)),
        ensures
            r@.indicators == views(indicators@),
            r@.to_remove == views(to_remove@),
            r@.label == context@,
    {
        Cleanable { indicators, to_remove, context }
    }

    /// The paths whose presence identifies a project of this type.
    pub fn indicators(&self) -> (r: &Vec<String>)
        ensures
            views(r@) == self@.indicators,
            all_inside(self@.indicators),
    {
        proof {
            use_type_invariant(self);
        }
        &self.indicators
    }

    /// The paths that are removed from a directory of this type.
    pub fn to_remove(&self) -> (r: &Vec<String>)
        ensures
            views(r@) == self@.to_remove,
            all_inside(self@.to_remove),
    {
        proof {
            use_type_invariant(self);
        }
        &self.to_remove
    }

    /// The label under which a match is reported.
    pub fn context(&self) -> (r: &String)
        ensures
            r@ == self@.label,
    {
        &self.context
    }

    /// Every path that must exist in `dir` for the rule to fire, resolved
    /// against `dir`: the indicators first, then the removable paths.
    pub fn required_paths(&self, dir: &str) -> (r: Vec<String>)
        ensures
            views(r@) == all_joined(dir@, self@.required()),
    {
        let mut r: Vec<String> = Vec::new();
        push_joined(&mut r, dir, &self.indicators);
        push_joined(&mut r, dir, &self.to_remove);
        proof {
            assert(all_joined(dir@, self@.required()) =~= all_joined(dir@, self@.indicators)
                + all_joined(dir@, self@.to_remove));
            assert(views(Seq::<String>::empty()) =~= Seq::<Seq<char>>::empty());
        }
        r
    }

    /// Decides the match from `dir_exists`, whether the directory itself
    /// still exists, and `present`, which tells for each path of
    /// `required_paths`, in that order, whether it exists. A directory that
    /// has vanished matches no rule.
    pub fn contains_indicators(&self, dir_exists: bool, present: &Vec<bool>) -> (r: bool)
        requires
            present@.len() == self@.required().len(),
        ensures
            r == (dir_exists && all_true(present@)),
    {
        if !dir_exists {
            return false;
        }
        for i in 0..present.len()
            invariant
                forall|j: int| 0 <= j < i ==> #[trigger] present@[j],
        {
            if !present[i] {
                return false;
            }
        }
        true
    }

    /// The paths removed when the rule fires on `dir`: each removable path
    /// resolved against `dir`, in order.
    pub fn clean(&self, dir: &str) -> (r: Vec<String>)
        ensures
            views(r@) == all_joined(dir@, self@.to_remove),
            forall|i: int|
                0 <= i < r@.len() ==> dir_prefix(dir@).is_prefix_of(#[trigger] r@[i]@) && r@[i]@.len()
                    > dir_prefix(dir@).len(),
    {
        proof {
            use_type_invariant(self);
        }
        let mut r: Vec<String> = Vec::new();
        push_joined(&mut r, dir, &self.to_remove);
        proof {
            assert(views(Seq::<String>::empty()) =~= Seq::<Seq<char>>::empty());
            assert forall|i: int| 0 <= i < r@.len() implies dir_prefix(dir@).is_prefix_of(
                #[trigger] r@[i]@,
            ) && r@[i]@.len() > dir_prefix(dir@).len() by {
                assert(r@[i]@ == views(r@)[i]);
                assert(inside_relative(self@.to_remove[i]));
                lemma_joined_under(dir@, self@.to_remove[i]);
            }
        }
        r
    }

    /// Evaluates the rule on `dir`, where `dir_exists` tells whether the
    /// directory still exists and `present` tells for each path of
    /// `required_paths` whether it exists. `None` when the rule does not
    /// fire; otherwise the paths to remove, none of them in a dry run. When
    /// the observations are those of a filesystem `fs`, the rule fires as
    /// the model's `matches_in` says, and removing the paths handed back
    /// leaves `fs` as the model's `step` does.
    pub fn try_cleaning(&self, dir: &str, dir_exists: bool, present: &Vec<bool>, dry_run: bool) -> (r:
        Option<Vec<String>>)
        requires
            present@.len() == self@.required().len(),
        ensures
            r.is_some() == (dir_exists && all_true(present@)),
            r matches Some(v) ==> views(v@) == (if dry_run {
                Seq::<Seq<char>>::empty()
            } else {
                all_joined(dir@, self@.to_remove)
            }),
            forall|fs: Set<Seq<char>>|
                present@ == #[trigger] observed(self@, dir@, fs) && dir_exists == fs.contains(dir@)
                    ==> {
                    &&& r.is_some() == matches_in(self@, dir@, fs)
                    &&& r matches Some(v) ==> step(self@, dir@, fs, dry_run) == after_removal(
                        views(v@),
                        fs,
                    )
                    &&& r is None ==> step(self@, dir@, fs, dry_run) == fs
                },
    {
        if !self.contains_indicators(dir_exists, present) {
            return None;
        }
        if dry_run {
            let v: Vec<String> = Vec::new();
            proof {
                assert(views(v@) =~= Seq::<Seq<char>>::empty());
                assert forall|fs: Set<Seq<char>>| #[trigger] observed(self@, dir@, fs) == present@
                    implies after_removal(views(v@), fs) == fs by {
                    assert(after_removal(views(v@), fs) =~= fs);
                }
            }
            Some(v)
        } else {
            Some(self.clean(dir))
        }
    }
}

} // verus!
