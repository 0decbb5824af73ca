//! The cleaning engine over a model of the filesystem: a set of the paths
//! that exist. A run visits directories in turn and applies every rule to
//! each; a rule that fires removes its paths and everything beneath them,
//! unless the run is a dry run.
use vstd::prelude::*;

use crate::path::{dir_prefix, joined, lemma_joined_under};
use crate::rule::{all_joined, all_true, RuleModel};

verus! {

/// For each path a rule requires in `dir`, whether it exists in `fs`.
pub open spec fn observed(rule: RuleModel, dir: Seq<char>, fs: Set<Seq<char>>) -> Seq<bool> {
    all_joined(dir, rule.required()).map_values(|p: Seq<char>| fs.contains(p))
}

/// Whether `rule` fires on `dir` when the existing paths are `fs`: the
/// directory itself and every path the rule requires in it exist.
pub open spec fn matches_in(rule: RuleModel, dir: Seq<char>, fs: Set<Seq<char>>) -> bool {
    fs.contains(dir) && all_true(observed(rule, dir, fs))
}

/// Whether `q` is the path `p` or lies beneath it.
pub open spec fn under(p: Seq<char>, q: Seq<char>) -> bool {
    p.is_prefix_of(q) && (q.len() == p.len() || p.last() == '/' || q[p.len() as int] == '/')
}

/// `fs` once each path of `targets` has been removed with all it contains.
pub open spec fn after_removal(targets: Seq<Seq<char>>, fs: Set<Seq<char>>) -> Set<Seq<char>> {
    fs.filter(|q: Seq<char>| !exists|i: int| 0 <= i < targets.len() && under(targets[i], q))
}

/// One evaluation of `rule` on `dir`.
pub open spec fn step(rule: RuleModel, dir: Seq<char>, fs: Set<Seq<char>>, dry_run: bool) -> Set<
    Seq<char>,
> {
    if matches_in(rule, dir, fs) && !dry_run {
        after_removal(all_joined(dir, rule.to_remove), fs)
    } else {
        fs
    }
}

/// Every rule of `rules`, in order, evaluated on `dir`.
pub open spec fn run_rules(
    rules: Seq<RuleModel>,
    dir: Seq<char>,
    fs: Set<Seq<char>>,
    dry_run: bool,
) -> Set<Seq<char>>
    decreases rules.len(),
{
    if rules.len() == 0 {
        fs
    } else {
        step(rules.last(), dir, run_rules(rules.drop_last(), dir, fs, dry_run), dry_run)
    }
}

/// A whole run: each directory of `dirs` in turn, every rule on each.
pub open spec fn run(
    rules: Seq<RuleModel>,
    dirs: Seq<Seq<char>>,
    fs: Set<Seq<char>>,
    dry_run: bool,
) -> Set<Seq<char>>
    decreases dirs.len(),
{
    if dirs.len() == 0 {
        fs
    } else {
        run_rules(rules, dirs.last(), run(rules, dirs.drop_last(), fs, dry_run), dry_run)
    }
}

/// Whether every rule has at least one path to remove.
pub open spec fn all_remove_something(rules: Seq<RuleModel>) -> bool {
    forall|k: int| 0 <= k < rules.len() ==> (#[trigger] rules[k]).to_remove.len() > 0
}

/// Whether no rule of `rules` fires on any directory of `dirs` in `fs`.
pub open spec fn none_fire(rules: Seq<RuleModel>, dirs: Seq<Seq<char>>, fs: Set<Seq<char>>) -> bool {
    forall|j: int, k: int|
        0 <= j < dirs.len() && 0 <= k < rules.len() ==> !matches_in(
            #[trigger] rules[k],
            #[trigger] dirs[j],
            fs,
        )
}

proof fn lemma_matches_shrink(rule: RuleModel, dir: Seq<char>, small: Set<Seq<char>>, big: Set<Seq<char>>)
    requires
        small.subset_of(big),
        matches_in(rule, dir, small),
    ensures
        matches_in(rule, dir, big),
{
    assert forall|i: int| 0 <= i < observed(rule, dir, big).len() implies #[trigger] observed(
        rule,
        dir,
        big,
    )[i] by {
        assert(observed(rule, dir, small)[i]);
    }
}

proof fn lemma_step_shrinks(rule: RuleModel, dir: Seq<char>, fs: Set<Seq<char>>, dry_run: bool)
    ensures
        step(rule, dir, fs, dry_run).subset_of(fs),
        dry_run ==> step(rule, dir, fs, dry_run) == fs,
        !matches_in(rule, dir, fs) ==> step(rule, dir, fs, dry_run) == fs,
        !dry_run && rule.to_remove.len() > 0 ==> !matches_in(rule, dir, step(rule, dir, fs, dry_run)),
{
    if !dry_run && rule.to_remove.len() > 0 && matches_in(rule, dir, fs) {
        let targets = all_joined(dir, rule.to_remove);
        let after = step(rule, dir, fs, dry_run);
        let i = rule.indicators.len() as int;
        assert(rule.required()[i] == rule.to_remove[0]);
        assert(under(targets[0], targets[0]));
        assert(!after.contains(targets[0]));
        assert(!observed(rule, dir, after)[i]);
    }
}

proof fn lemma_run_rules_shrinks(rules: Seq<RuleModel>, dir: Seq<char>, fs: Set<Seq<char>>, dry_run: bool)
    ensures
        run_rules(rules, dir, fs, dry_run).subset_of(fs),
        dry_run ==> run_rules(rules, dir, fs, dry_run) == fs,
    decreases rules.len(),
{
    if rules.len() > 0 {
        lemma_run_rules_shrinks(rules.drop_last(), dir, fs, dry_run);
        lemma_step_shrinks(rules.last(), dir, run_rules(rules.drop_last(), dir, fs, dry_run), dry_run);
    }
}

proof fn lemma_run_shrinks(rules: Seq<RuleModel>, dirs: Seq<Seq<char>>, fs: Set<Seq<char>>, dry_run: bool)
    ensures
        run(rules, dirs, fs, dry_run).subset_of(fs),
        dry_run ==> run(rules, dirs, fs, dry_run) == fs,
    decreases dirs.len(),
{
    if dirs.len() > 0 {
        lemma_run_shrinks(rules, dirs.drop_last(), fs, dry_run);
        lemma_run_rules_shrinks(rules, dirs.last(), run(rules, dirs.drop_last(), fs, dry_run), dry_run);
    }
}

proof fn lemma_none_fire_shrink(rules: Seq<RuleModel>, dirs: Seq<Seq<char>>, small: Set<Seq<char>>, big: Set<Seq<char>>)
    requires
        small.subset_of(big),
        none_fire(rules, dirs, big),
    ensures
        none_fire(rules, dirs, small),
{
    assert forall|j: int, k: int| 0 <= j < dirs.len() && 0 <= k < rules.len() implies !matches_in(
        #[trigger] rules[k],
        #[trigger] dirs[j],
        small,
    ) by {
        if matches_in(rules[k], dirs[j], small) {
            lemma_matches_shrink(rules[k], dirs[j], small, big);
        }
    }
}

proof fn lemma_run_rules_clears(rules: Seq<RuleModel>, dir: Seq<char>, fs: Set<Seq<char>>)
    requires
        all_remove_something(rules),
    ensures
        none_fire(rules, seq![dir], run_rules(rules, dir, fs, false)),
    decreases rules.len(),
{
    if rules.len() > 0 {
        let before = run_rules(rules.drop_last(), dir, fs, false);
        let after = run_rules(rules, dir, fs, false);
        lemma_run_rules_clears(rules.drop_last(), dir, fs);
        lemma_step_shrinks(rules.last(), dir, before, false);
        lemma_none_fire_shrink(rules.drop_last(), seq![dir], after, before);
        assert forall|j: int, k: int| 0 <= j < 1 && 0 <= k < rules.len() implies !matches_in(
            #[trigger] rules[k],
            #[trigger] seq![dir][j],
            after,
        ) by {
            if k < rules.len() - 1 {
                assert(rules[k] == rules.drop_last()[k]);
            }
        }
    }
}

proof fn lemma_run_clears(rules: Seq<RuleModel>, dirs: Seq<Seq<char>>, fs: Set<Seq<char>>)
    requires
        all_remove_something(rules),
    ensures
        none_fire(rules, dirs, run(rules, dirs, fs, false)),
    decreases dirs.len(),
{
    if dirs.len() > 0 {
        let before = run(rules, dirs.drop_last(), fs, false);
        let after = run(rules, dirs, fs, false);
        lemma_run_clears(rules, dirs.drop_last(), fs);
        lemma_run_rules_clears(rules, dirs.last(), before);
        lemma_run_rules_shrinks(rules, dirs.last(), before, false);
        lemma_none_fire_shrink(rules, dirs.drop_last(), after, before);
        assert forall|j: int, k: int| 0 <= j < dirs.len() && 0 <= k < rules.len() implies !matches_in(
            #[trigger] rules[k],
            #[trigger] dirs[j],
            after,
        ) by {
            if j < dirs.len() - 1 {
                assert(dirs[j] == dirs.drop_last()[j]);
            } else {
                assert(dirs[j] == seq![dirs.last()][0]);
            }
        }
    }
}

proof fn lemma_run_rules_quiet(rules: Seq<RuleModel>, dir: Seq<char>, fs: Set<Seq<char>>)
    requires
        none_fire(rules, seq![dir], fs),
    ensures
        run_rules(rules, dir, fs, false) == fs,
    decreases rules.len(),
{
    if rules.len() > 0 {
        assert forall|j: int, k: int| 0 <= j < 1 && 0 <= k < rules.drop_last().len() implies !matches_in(
            #[trigger] rules.drop_last()[k],
            #[trigger] seq![dir][j],
            fs,
        ) by {
            assert(rules.drop_last()[k] == rules[k]);
        }
        lemma_run_rules_quiet(rules.drop_last(), dir, fs);
        assert(!matches_in(rules[rules.len() - 1], seq![dir][0], fs));
    }
}

proof fn lemma_run_quiet(rules: Seq<RuleModel>, dirs: Seq<Seq<char>>, fs: Set<Seq<char>>)
    requires
        none_fire(rules, dirs, fs),
    ensures
        run(rules, dirs, fs, false) == fs,
    decreases dirs.len(),
{
    if dirs.len() > 0 {
        assert forall|j: int, k: int| 0 <= j < dirs.drop_last().len() && 0 <= k < rules.len() implies !matches_in(
            #[trigger] rules[k],
            #[trigger] dirs.drop_last()[j],
            fs,
        ) by {
            assert(dirs.drop_last()[j] == dirs[j]);
        }
        lemma_run_quiet(rules, dirs.drop_last(), fs);
        assert forall|j: int, k: int| 0 <= j < 1 && 0 <= k < rules.len() implies !matches_in(
            #[trigger] rules[k],
            #[trigger] seq![dirs.last()][j],
            fs,
        ) by {
            assert(seq![dirs.last()][j] == dirs[dirs.len() - 1]);
        }
        lemma_run_rules_quiet(rules, dirs.last(), fs);
    }
}

/// Running twice: after a run that is not a dry run, where every rule has
/// something to remove, no rule fires on any directory of the run, and a
/// second run over the same directories removes nothing.
pub proof fn lemma_second_run_idle(rules: Seq<RuleModel>, dirs: Seq<Seq<char>>, fs: Set<Seq<char>>)
    requires
        all_remove_something(rules),
    ensures
        none_fire(rules, dirs, run(rules, dirs, fs, false)),
        run(rules, dirs, run(rules, dirs, fs, false), false) == run(rules, dirs, fs, false),
{
    lemma_run_clears(rules, dirs, fs);
    lemma_run_quiet(rules, dirs, run(rules, dirs, fs, false));
}

/// A dry run leaves every path in place, and no run ever adds a path.
pub proof fn lemma_dry_run_keeps(rules: Seq<RuleModel>, dirs: Seq<Seq<char>>, fs: Set<Seq<char>>, dry_run: bool)
    ensures
        run(rules, dirs, fs, true) == fs,
        run(rules, dirs, fs, dry_run).subset_of(fs),
{
    lemma_run_shrinks(rules, dirs, fs, true);
    lemma_run_shrinks(rules, dirs, fs, dry_run);
}

/// A rule fires only when the directory and every required path exist:
/// without any single one of them it does not fire, and with all of them
/// it does.
pub proof fn lemma_every_path_needed(rule: RuleModel, dir: Seq<char>, fs: Set<Seq<char>>, i: int)
    requires
        0 <= i < rule.required().len(),
    ensures
        !matches_in(rule, dir, fs.remove(joined(dir, rule.required()[i]))),
        matches_in(rule, dir, fs) <==> fs.contains(dir) && (forall|k: int|
            0 <= k < rule.required().len() ==> fs.contains(joined(dir, #[trigger] rule.required()[k]))),
        !matches_in(rule, dir, fs.remove(dir)),
{
    let small = fs.remove(joined(dir, rule.required()[i]));
    assert(!observed(rule, dir, small)[i]);
    if forall|k: int|
        0 <= k < rule.required().len() ==> fs.contains(joined(dir, #[trigger] rule.required()[k])) {
        assert forall|k: int| 0 <= k < observed(rule, dir, fs).len() implies #[trigger] observed(
            rule,
            dir,
            fs,
        )[k] by {
            assert(fs.contains(joined(dir, rule.required()[k])));
        }
    }
    if matches_in(rule, dir, fs) {
        assert forall|k: int| 0 <= k < rule.required().len() implies fs.contains(
            joined(dir, #[trigger] rule.required()[k]),
        ) by {
            assert(observed(rule, dir, fs)[k]);
        }
    }
}

/// Whether a rule fires on `a` depends only on `a` and the paths beneath
/// it: adding or removing paths that lie elsewhere, such as in a sibling
/// directory, does not change it.
pub proof fn lemma_outside_paths_irrelevant(
    rule: RuleModel,
    a: Seq<char>,
    fs: Set<Seq<char>>,
    elsewhere: Set<Seq<char>>,
)
    requires
        forall|q: Seq<char>| #[trigger] elsewhere.contains(q) ==> !dir_prefix(a).is_prefix_of(q),
        !elsewhere.contains(a),
    ensures
        matches_in(rule, a, fs.union(elsewhere)) == matches_in(rule, a, fs),
        matches_in(rule, a, fs.difference(elsewhere)) == matches_in(rule, a, fs),
{
    assert forall|k: int| 0 <= k < rule.required().len() implies !elsewhere.contains(
        joined(a, #[trigger] rule.required()[k]),
    ) by {
        lemma_joined_under(a, rule.required()[k]);
    }
    assert(observed(rule, a, fs.union(elsewhere)) =~= observed(rule, a, fs));
    assert(observed(rule, a, fs.difference(elsewhere)) =~= observed(rule, a, fs));
}

} // verus!
