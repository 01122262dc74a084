use nixpkgs_vet::problem::{
    ByNameOverrideContainsEmptyArgument, NewTopLevelPackageShouldBeByName,
    NewTopLevelPackageShouldBeByNameWithCustomArgument, Problem, TopLevelPackageMovedOutOfByName,
    TopLevelPackageMovedOutOfByNameWithCustomArguments,
};
use nixpkgs_vet::location::Location;
use nixpkgs_vet::ratchet::{
    compare_ratchet, name_sorts_before, CallPackageArgumentInfo, File, ManualDefinition, Nixpkgs, Package,
    RatchetState, UsesByName, UsesByNameContext,
};
use nixpkgs_vet::validation::Validation;

fn context(path: Option<&str>, empty_arg: bool) -> UsesByNameContext {
    UsesByNameContext {
        call_package: CallPackageArgumentInfo {
            relative_path: path.map(|p| p.to_string()),
            empty_arg,
        },
        file: "pkgs/top-level/all-packages.nix".to_string(),
        by_name_path: "pkgs/by-name".to_string(),
    }
}

fn override_problem(name: &str) -> Problem {
    Problem::ByNameOverrideContainsEmptyArgument(ByNameOverrideContainsEmptyArgument {
        package_name: name.to_string(),
        location: Location::new("pkgs/top-level/all-packages.nix".to_string(), 3, 3),
        definition: format!("{name} = callPackage ./foo {{ }};"),
        by_name_path: "pkgs/by-name".to_string(),
    })
}

fn package(manual: RatchetState<Problem>, by_name: RatchetState<UsesByNameContext>) -> Package {
    Package { manual_definition: manual, uses_by_name: by_name }
}

fn tight() -> Package {
    package(RatchetState::Tight, RatchetState::Tight)
}

fn tree(packages: Vec<(&str, Package)>) -> Nixpkgs {
    Nixpkgs {
        packages: packages.into_iter().map(|(n, p)| (n.to_string(), p)).collect(),
        files: vec![("default.nix".to_string(), File {})],
    }
}

fn problems_of(v: Validation<()>) -> Vec<Problem> {
    match v {
        Validation::Success(()) => Vec::new(),
        Validation::Failure(ps) => ps,
    }
}

fn state(kind: u8) -> RatchetState<u32> {
    match kind {
        0 => RatchetState::Tight,
        1 => RatchetState::Loose(5),
        _ => RatchetState::NonApplicable,
    }
}

#[test]
fn ratchet_rejects_only_new_or_tightened_looseness() {
    let name = "foo".to_string();
    // previous: None, Tight, Loose, NonApplicable; current: Tight, Loose, NonApplicable.
    for previous in [None, Some(0u8), Some(1), Some(2)] {
        for current in [0u8, 1, 2] {
            let prev_state = previous.map(state);
            let r = compare_ratchet(&name, prev_state.as_ref(), state(current), |n: &String, existed: bool, c: u32| {
                assert_eq!(n, "foo");
                assert_eq!(c, 5);
                assert_eq!(existed, previous.is_some());
                override_problem("foo")
            });
            let expect_reject = current == 1 && (previous.is_none() || previous == Some(0));
            match r {
                Validation::Failure(ps) => {
                    assert!(expect_reject, "{previous:?} -> {current} must be accepted");
                    assert_eq!(ps.len(), 1);
                }
                Validation::Success(()) => {
                    assert!(!expect_reject, "{previous:?} -> {current} must be rejected")
                }
            }
        }
    }
}

#[test]
fn uses_by_name_problem_depends_on_history_and_arguments() {
    let name = "foo".to_string();
    let p = UsesByName::to_problem(&name, true, context(Some("pkgs/tools/foo"), true));
    assert_eq!(
        p,
        Problem::TopLevelPackageMovedOutOfByName(TopLevelPackageMovedOutOfByName {
            package_name: "foo".to_string(),
            call_package_path: Some("pkgs/tools/foo".to_string()),
            file: "pkgs/top-level/all-packages.nix".to_string(),
            by_name_path: "pkgs/by-name".to_string(),
        })
    );
    let p = UsesByName::to_problem(&name, true, context(None, false));
    assert!(matches!(
        p,
        Problem::TopLevelPackageMovedOutOfByNameWithCustomArguments(
            TopLevelPackageMovedOutOfByNameWithCustomArguments { call_package_path: None, .. }
        )
    ));
    let p = UsesByName::to_problem(&name, false, context(Some("x"), true));
    assert!(matches!(
        p,
        Problem::NewTopLevelPackageShouldBeByName(NewTopLevelPackageShouldBeByName { ref attr_path, .. })
            if attr_path == "foo"
    ));
    let p = UsesByName::to_problem(&name, false, context(Some("x"), false));
    assert!(matches!(
        p,
        Problem::NewTopLevelPackageShouldBeByNameWithCustomArgument(
            NewTopLevelPackageShouldBeByNameWithCustomArgument { .. }
        )
    ));
}

#[test]
fn manual_definition_problem_is_its_context() {
    let name = "foo".to_string();
    assert_eq!(
        ManualDefinition::to_problem(&name, false, override_problem("foo")),
        override_problem("foo")
    );
}

#[test]
fn package_compare_reports_every_check() {
    let name = "foo".to_string();
    let current = package(
        RatchetState::Loose(override_problem("foo")),
        RatchetState::Loose(context(Some("pkgs/tools/foo"), true)),
    );
    let ps = problems_of(Package::compare(&name, None, current));
    assert_eq!(ps.len(), 2);
    assert_eq!(ps[0], override_problem("foo"));
    assert!(matches!(ps[1], Problem::NewTopLevelPackageShouldBeByName(_)));
}

#[test]
fn file_compare_always_succeeds() {
    let name = "default.nix".to_string();
    assert!(matches!(File::compare(&name, None, &File {}), Validation::Success(())));
}

#[test]
fn deleted_package_is_not_checked() {
    let previous = tree(vec![("gone", tight()), ("kept", tight())]);
    let current = tree(vec![("kept", tight())]);
    assert!(matches!(Nixpkgs::compare(&previous, current), Validation::Success(())));
}

#[test]
fn compare_with_itself_is_clean() {
    let t = tree(vec![
        ("a", tight()),
        ("b", package(RatchetState::Loose(override_problem("b")), RatchetState::NonApplicable)),
        ("c", package(RatchetState::Tight, RatchetState::Loose(context(None, false)))),
    ]);
    let copy = t.clone();
    assert!(matches!(Nixpkgs::compare(&t, copy), Validation::Success(())));
}

#[test]
fn tight_to_loose_is_reported_for_its_item() {
    let base = tree(vec![("other", tight()), ("y", tight())]);
    let candidate = tree(vec![
        ("other", tight()),
        ("y", package(RatchetState::Tight, RatchetState::Loose(context(Some("pkgs/tools/y"), true)))),
    ]);
    let ps = problems_of(Nixpkgs::compare(&base, candidate));
    assert_eq!(ps.len(), 1);
    match &ps[0] {
        Problem::TopLevelPackageMovedOutOfByName(p) => assert_eq!(p.package_name, "y"),
        _ => panic!("expected a problem about y"),
    }
}

#[test]
fn loose_stays_loose_is_grandfathered() {
    let base = tree(vec![(
        "z",
        package(RatchetState::Loose(override_problem("z")), RatchetState::Loose(context(Some("a"), true))),
    )]);
    let candidate = tree(vec![(
        "z",
        package(RatchetState::Loose(override_problem("z-changed")), RatchetState::Loose(context(None, false))),
    )]);
    assert!(matches!(Nixpkgs::compare(&base, candidate), Validation::Success(())));
}

#[test]
fn names_sort_by_code_point() {
    assert!(name_sorts_before("Zlib", "abc"));
    assert!(!name_sorts_before("abc", "Zlib"));
    assert!(name_sorts_before("foo", "foo-bar"));
    assert!(!name_sorts_before("foo", "foo"));
    assert!(name_sorts_before("", "a"));
}

#[test]
fn trees_must_be_in_ascending_name_order() {
    assert!(tree(vec![("Zlib", tight()), ("abc", tight())]).is_well_formed());
    assert!(!tree(vec![("abc", tight()), ("Zlib", tight())]).is_well_formed());
    assert!(!tree(vec![("abc", tight()), ("abc", tight())]).is_well_formed());
}

#[test]
fn problems_come_in_ascending_name_order() {
    let base = tree(vec![]);
    let candidate = tree(vec![
        ("a", package(RatchetState::Tight, RatchetState::Loose(context(None, true)))),
        ("b", package(RatchetState::Tight, RatchetState::Loose(context(None, true)))),
    ]);
    let ps = problems_of(Nixpkgs::compare(&base, candidate));
    assert_eq!(ps.len(), 2);
    assert!(matches!(&ps[0], Problem::NewTopLevelPackageShouldBeByName(p) if p.attr_path == "a"));
    assert!(matches!(&ps[1], Problem::NewTopLevelPackageShouldBeByName(p) if p.attr_path == "b"));
}
