use gari::cli::{parse_cli, walkable_roots};
use gari::path::join;
use gari::projects::{cleaners, CMakeProject, CargoProject, ZigProject};
use gari::report::{cleaning_actions, removal_line, report_line, Action};
use gari::rule::Cleanable;

fn strings(v: &[&str]) -> Vec<String> {
    v.iter().map(|s| s.to_string()).collect()
}

#[test]
fn join_adds_separator() {
    assert_eq!(join("/work/proj", "target/"), "/work/proj/target/");
    assert_eq!(join("/work/proj/", "build"), "/work/proj/build");
    assert_eq!(join("", "build"), "build");
}

#[test]
fn cargo_project_match_reports_and_removes_target() {
    let rule = CargoProject.rule();
    let dir = "/work/proj";
    let paths = rule.required_paths(dir);
    assert_eq!(paths, strings(&["/work/proj/Cargo.toml", "/work/proj/src/", "/work/proj/target/"]));
    let present = vec![true, true, true];
    assert!(rule.contains_indicators(true, &present));
    let removals = rule.try_cleaning(dir, true, &present, false);
    assert_eq!(removals, Some(strings(&["/work/proj/target/"])));
    assert_eq!(
        report_line(rule.context(), dir, 10_000_000),
        "Cargo project found in /work/proj (10 MB)"
    );
}

#[test]
fn missing_src_gives_no_match() {
    let rule = CargoProject.rule();
    let present = vec![true, false, true];
    assert!(!rule.contains_indicators(true, &present));
    assert_eq!(rule.try_cleaning("/work/proj", true, &present, false), None);
    assert_eq!(rule.try_cleaning("/work/proj", true, &present, true), None);
}

#[test]
fn missing_root_is_passed_over() {
    let roots = strings(&["/does/not/exist"]);
    assert_eq!(walkable_roots(&roots, &vec![false]), Vec::<String>::new());
    let roots = strings(&["/a", "/missing", "/b"]);
    assert_eq!(walkable_roots(&roots, &vec![true, false, true]), strings(&["/a", "/b"]));
}

#[test]
fn dry_run_removes_nothing() {
    let rule = ZigProject.rule();
    let present = vec![true; 4];
    assert_eq!(rule.try_cleaning("/z", true, &present, true), Some(Vec::new()));
    assert_eq!(
        rule.try_cleaning("/z", true, &present, false),
        Some(strings(&["/z/zig-out", "/z/zig-cache"]))
    );
}

#[test]
fn second_pass_after_cleaning_finds_nothing() {
    let rule = CargoProject.rule();
    // target/ is gone after the first pass
    let present = vec![true, true, false];
    assert_eq!(rule.try_cleaning("/work/proj", true, &present, false), None);
}

#[test]
fn every_required_path_is_needed() {
    let rule = ZigProject.rule();
    for missing in 0..4 {
        let present: Vec<bool> = (0..4).map(|i| i != missing).collect();
        assert_eq!(rule.try_cleaning("/z", true, &present, false), None);
    }
}

#[test]
fn sibling_paths_are_not_consulted() {
    let rule = CMakeProject.rule();
    let a = rule.required_paths("/root/a");
    let b = rule.required_paths("/root/b");
    assert!(a.iter().all(|p| p.starts_with("/root/a/")));
    assert!(a.iter().all(|p| !b.contains(p)));
}

#[test]
fn empty_removal_list_reports_without_removing() {
    let rule = Cleanable::new(strings(&["marker"]), Vec::new(), "Marker".to_string());
    assert_eq!(rule.try_cleaning("/m", true, &vec![true], false), Some(Vec::new()));
}

#[test]
fn registry_holds_builtin_rules_in_order() {
    let rules = cleaners();
    let labels: Vec<&str> = rules.iter().map(|r| r.context().as_str()).collect();
    assert_eq!(labels, vec!["Cargo", "CMake", "Zig"]);
    assert_eq!(rules[1].indicators(), &strings(&["CMakeLists.txt"]));
    assert_eq!(rules[1].to_remove(), &strings(&["build"]));
    assert_eq!(CargoProject.indicators(), strings(&["Cargo.toml", "src/"]));
    assert_eq!(ZigProject.to_remove(), strings(&["zig-out", "zig-cache"]));
    assert_eq!(CMakeProject.context(), "CMake");
}

#[test]
fn report_sizes_are_human_scaled() {
    assert_eq!(report_line("Zig", "/z", 12_345_678), "Zig project found in /z (12.3 MB)");
    assert_eq!(report_line("CMake", "/c", 500), "CMake project found in /c (500 B)");
}

#[test]
fn removal_line_names_the_path() {
    assert_eq!(removal_line("/work/proj/target/"), "Attempting to remove /work/proj/target/");
}

#[test]
fn no_paths_means_current_directory() {
    let cli = parse_cli(Vec::new(), true);
    assert_eq!(cli.paths, strings(&["."]));
    assert!(cli.check);
    let cli = parse_cli(strings(&["/a", "/b"]), false);
    assert_eq!(cli.paths, strings(&["/a", "/b"]));
    assert!(!cli.check);
}

#[test]
fn vanished_directory_matches_nothing() {
    let rule = Cleanable::new(Vec::new(), Vec::new(), "Any".to_string());
    assert!(!rule.contains_indicators(false, &Vec::new()));
    assert_eq!(rule.try_cleaning("/gone", false, &Vec::new(), false), None);
    assert_eq!(rule.try_cleaning("/here", true, &Vec::new(), false), Some(Vec::new()));
    let cargo = CargoProject.rule();
    assert_eq!(cargo.try_cleaning("/gone", false, &vec![true, true, true], false), None);
}

#[test]
fn actions_report_then_announce_each_removal() {
    let removals = strings(&["/z/zig-out", "/z/zig-cache"]);
    let actions = cleaning_actions("Zig", "/z", 500, &removals);
    assert_eq!(actions.len(), 5);
    assert!(matches!(&actions[0], Action::Print(t) if t == "Zig project found in /z (500 B)"));
    assert!(matches!(&actions[1], Action::Print(t) if t == "Attempting to remove /z/zig-out"));
    assert!(matches!(&actions[2], Action::Remove(p) if p == "/z/zig-out"));
    assert!(matches!(&actions[3], Action::Print(t) if t == "Attempting to remove /z/zig-cache"));
    assert!(matches!(&actions[4], Action::Remove(p) if p == "/z/zig-cache"));
    let only_report = cleaning_actions("Cargo", "/p", 0, &Vec::new());
    assert_eq!(only_report.len(), 1);
}

#[test]
fn removal_paths_stay_inside_the_directory() {
    for rule in cleaners() {
        for p in rule.clean("/work/proj") {
            assert!(p.starts_with("/work/proj/"));
            assert!(p.len() > "/work/proj/".len());
        }
    }
}
