//! The built-in project types.
use vstd::prelude::*;

use crate::engine::all_remove_something;
use crate::rule::{all_inside, inside_relative, no_parent_from, views, Cleanable, RuleModel};

verus! {

/// A Rust package: `Cargo.toml` and `src/` beside a `target/` directory.
pub struct CargoProject;

/// A CMake project: `CMakeLists.txt` beside a `build` directory.
pub struct CMakeProject;

/// A Zig project: `build.zig` and `src/` beside `zig-out` and `zig-cache`.
pub struct ZigProject;

/// The rule of a Rust package.
pub open spec fn cargo_rule() -> RuleModel {
    RuleModel {
        indicators: seq!["Cargo.toml"@, "src/"@],
        to_remove: seq!["target/"@],
        label: "Cargo"@,
    }
}

/// The rule of a CMake project.
pub open spec fn cmake_rule() -> RuleModel {
    RuleModel { indicators: seq!["CMakeLists.txt"@], to_remove: seq!["build"@], label: "CMake"@ }
}

/// The rule of a Zig project.
pub open spec fn zig_rule() -> RuleModel {
    RuleModel {
        indicators: seq!["build.zig"@, "src/"@],
        to_remove: seq!["zig-out"@, "zig-cache"@],
        label: "Zig"@,
    }
}

/// The rules of all built-in project types, in the order they are applied.
pub open spec fn builtin_rules() -> Seq<RuleModel> {
    seq![cargo_rule(), cmake_rule(), zig_rule()]
}

/// Every path of the built-in rules stays inside the directory it is
/// resolved against.
pub proof fn lemma_builtin_paths_inside()
    ensures
        all_inside(cargo_rule().indicators),
        all_inside(cargo_rule().to_remove),
        all_inside(cmake_rule().indicators),
        all_inside(cmake_rule().to_remove),
        all_inside(zig_rule().indicators),
        all_inside(zig_rule().to_remove),
{
    reveal_strlit("Cargo.toml");
    reveal_strlit("src/");
    reveal_strlit("target/");
    reveal_strlit("CMakeLists.txt");
    reveal_strlit("build");
    reveal_strlit("build.zig");
    reveal_strlit("zig-out");
    reveal_strlit("zig-cache");
    reveal_with_fuel(no_parent_from, 16);
    assert(inside_relative("Cargo.toml"@));
    assert(inside_relative("src/"@));
    assert(inside_relative("target/"@));
    assert(inside_relative("CMakeLists.txt"@));
    assert(inside_relative("build"@));
    assert(inside_relative("build.zig"@));
    assert(inside_relative("zig-out"@));
    assert(inside_relative("zig-cache"@));
    assert(all_inside(cargo_rule().indicators));
    assert(all_inside(cargo_rule().to_remove));
    assert(all_inside(cmake_rule().indicators));
    assert(all_inside(cmake_rule().to_remove));
    assert(all_inside(zig_rule().indicators));
    assert(all_inside(zig_rule().to_remove));
}

/// A vector holding the one string `a`.
fn strings1(a: &str) -> (r: Vec<String>)
    ensures
        views(r@) == seq![a@],
{
    let r = vec![String::from_str(a)];
    assert(views(r@) =~= seq![a@]);
    r
}

/// A vector holding the strings `a` and `b`, in order.
fn strings2(a: &str, b: &str) -> (r: Vec<String>)
    ensures
        views(r@) == seq![a@, b@],
{
    let r = vec![String::from_str(a), String::from_str(b)];
    assert(views(r@) =~= seq![a@, b@]);
    r
}

impl CargoProject {
    /// The paths whose presence identifies a project of this type.
    pub fn indicators(&self) -> (r: Vec<String>)
        ensures
            views(r@) == cargo_rule().indicators,
    {
        strings2("Cargo.toml", "src/")
    }

    /// The paths removed from a project of this type.
    pub fn to_remove(&self) -> (r: Vec<String>)
        ensures
            views(r@) == cargo_rule().to_remove,
    {
        strings1("target/")
    }

    /// The label under which a project of this type is reported.
    pub fn context(&self) -> (r: String)
        ensures
            r@ == cargo_rule().label,
    {
        String::from_str("Cargo")
    }

    /// This project type as a rule.
    pub fn rule(&self) -> (r: Cleanable)
        ensures
            r@ == cargo_rule(),
    {
        proof {
            lemma_builtin_paths_inside();
        }
        Cleanable::new(self.indicators(), self.to_remove(), self.context())
    }
}

impl CMakeProject {
    /// The paths whose presence identifies a project of this type.
    pub fn indicators(&self) -> (r: Vec<String>)
        ensures
            views(r@) == cmake_rule().indicators,
    {
        strings1("CMakeLists.txt")
    }

    /// The paths removed from a project of this type.
    pub fn to_remove(&self) -> (r: Vec<String>)
        ensures
            views(r@) == cmake_rule().to_remove,
    {
        strings1("build")
    }

    /// The label under which a project of this type is reported.
    pub fn context(&self) -> (r: String)
        ensures
            r@ == cmake_rule().label,
    {
        String::from_str("CMake")
    }

    /// This project type as a rule.
    pub fn rule(&self) -> (r: Cleanable)
        ensures
            r@ == cmake_rule(),
    {
        proof {
            lemma_builtin_paths_inside();
        }
        Cleanable::new(self.indicators(), self.to_remove(), self.context())
    }
}

impl ZigProject {
    /// The paths whose presence identifies a project of this type.
    pub fn indicators(&self) -> (r: Vec<String>)
        ensures
            views(r@) == zig_rule().indicators,
    {
        strings2("build.zig", "src/")
    }

    /// The paths removed from a project of this type.
    pub fn to_remove(&self) -> (r: Vec<String>)
        ensures
            views(r@) == zig_rule().to_remove,
    {
        strings2("zig-out", "zig-cache")
    }

    /// The label under which a project of this type is reported.
    pub fn context(&self) -> (r: String)
        ensures
            r@ == zig_rule().label,
    {
        String::from_str("Zig")
    }

    /// This project type as a rule.
    pub fn rule(&self) -> (r: Cleanable)
        ensures
            r@ == zig_rule(),
    {
        proof {
            lemma_builtin_paths_inside();
        }
        Cleanable::new(self.indicators(), self.to_remove(), self.context())
    }
}

/// The registry: the built-in rules, in the order they are applied to each
/// directory.
pub fn cleaners() -> (r: Vec<Cleanable>)
    ensures
        r@.map_values(|c: Cleanable| c@) == builtin_rules(),
{
    let r = vec![CargoProject.rule(), CMakeProject.rule(), ZigProject.rule()];
    assert(r@.map_values(|c: Cleanable| c@) =~= builtin_rules());
    r
}

/// Every built-in rule has a path to remove, so a run over them is idle the
/// second time.
pub proof fn lemma_builtin_rules_remove_something()
    ensures
        all_remove_something(builtin_rules()),
{
    assert(builtin_rules()[0] == cargo_rule());
    assert(builtin_rules()[1] == cmake_rule());
    assert(builtin_rules()[2] == zig_rule());
}

} // verus!
