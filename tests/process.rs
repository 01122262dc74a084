use nixpkgs_vet::problem::{ByNameShardIsInvalid, PackageNixIsNotFile, Problem};
use nixpkgs_vet::process::{merge_statuses, nixpkgs_from_results, process_by_name_dir};
use nixpkgs_vet::ratchet::{
    CallPackageArgumentInfo, File, Nixpkgs, Package, RatchetState, UsesByNameContext,
};
use nixpkgs_vet::status::Status;
use nixpkgs_vet::validation::Validation;

fn shard_problem() -> Problem {
    Problem::ByNameShardIsInvalid(ByNameShardIsInvalid::new("A+".to_string()))
}

fn nix_problem(name: &str) -> Problem {
    Problem::PackageNixIsNotFile(PackageNixIsNotFile::new(name.to_string()))
}

fn loose_context() -> UsesByNameContext {
    UsesByNameContext {
        call_package: CallPackageArgumentInfo {
            relative_path: Some("pkgs/tools/foo".to_string()),
            empty_arg: true,
        },
        file: "pkgs/top-level/all-packages.nix".to_string(),
        by_name_path: "pkgs/by-name".to_string(),
    }
}

fn tight() -> Package {
    Package { manual_definition: RatchetState::Tight, uses_by_name: RatchetState::Tight }
}

fn loose() -> Package {
    Package {
        manual_definition: RatchetState::Tight,
        uses_by_name: RatchetState::Loose(loose_context()),
    }
}

fn tree(packages: Vec<(&str, Package)>) -> Nixpkgs {
    Nixpkgs {
        packages: packages.into_iter().map(|(n, p)| (n.to_string(), p)).collect(),
        files: Vec::new(),
    }
}

/// The report of a status: each problem on its own, then the summary sentence.
fn report_len(status: &Status) -> usize {
    status.errors().map_or(0, |ps| ps.len()) + 1
}

#[test]
fn fixed_base_heals_the_branch() {
    let base: Validation<Nixpkgs> = Validation::Failure(vec![shard_problem()]);
    let candidate = Validation::Success(tree(vec![("foo", tight())]));
    let status = process_by_name_dir(Ok(base), Ok(candidate));
    assert!(matches!(status, Status::BranchHealed));
    assert_eq!(status.exit_code(), 0);
    assert!(status.errors().is_none());
    assert_eq!(report_len(&status), 1);
    assert_eq!(status.message(), "The base branch is broken, but this PR fixes it. Nice job!");
}

#[test]
fn broken_candidate_introduces_problems() {
    let base = Validation::Success(tree(vec![("foo", tight())]));
    let candidate: Validation<Nixpkgs> = Validation::Failure(vec![nix_problem("bar")]);
    let status = process_by_name_dir(Ok(base), Ok(candidate));
    assert_eq!(status.exit_code(), 1);
    match &status {
        Status::ProblemsIntroduced(ps) => assert_eq!(ps, &vec![nix_problem("bar")]),
        _ => panic!("expected introduced problems"),
    }
    assert_eq!(report_len(&status), 2);
}

#[test]
fn new_loose_item_is_a_discouraged_pattern() {
    let base = Validation::Success(tree(vec![("foo", tight())]));
    let candidate = Validation::Success(tree(vec![("bar", loose()), ("foo", tight())]));
    let status = process_by_name_dir(Ok(base), Ok(candidate));
    assert_eq!(status.exit_code(), 1);
    match &status {
        Status::DiscouragedPatternedIntroduced(ps) => {
            assert_eq!(ps.len(), 1);
            assert!(matches!(&ps[0], Problem::NewTopLevelPackageShouldBeByName(p) if p.attr_path == "bar"));
        }
        _ => panic!("expected a discouraged pattern"),
    }
}

#[test]
fn loosened_item_is_a_discouraged_pattern() {
    let base = Validation::Success(tree(vec![("y", tight())]));
    let candidate = Validation::Success(tree(vec![("y", loose())]));
    let status = process_by_name_dir(Ok(base), Ok(candidate));
    assert_eq!(status.exit_code(), 1);
    match &status {
        Status::DiscouragedPatternedIntroduced(ps) => {
            assert_eq!(ps.len(), 1);
            assert!(matches!(&ps[0], Problem::TopLevelPackageMovedOutOfByName(p) if p.package_name == "y"));
        }
        _ => panic!("expected a discouraged pattern"),
    }
}

#[test]
fn grandfathered_looseness_validates() {
    let base = Validation::Success(tree(vec![("z", loose())]));
    let candidate = Validation::Success(tree(vec![("z", loose())]));
    let status = process_by_name_dir(Ok(base), Ok(candidate));
    assert!(matches!(status, Status::ValidatedSuccessfully));
    assert_eq!(status.exit_code(), 0);
}

#[test]
fn both_broken_keeps_the_candidate_problems() {
    let base: Validation<Nixpkgs> = Validation::Failure(vec![shard_problem()]);
    let candidate: Validation<Nixpkgs> = Validation::Failure(vec![nix_problem("a"), nix_problem("b")]);
    match process_by_name_dir(Ok(base), Ok(candidate)) {
        Status::BranchStillBroken(ps) => assert_eq!(ps, vec![nix_problem("a"), nix_problem("b")]),
        _ => panic!("expected a still broken branch"),
    }
}

#[test]
fn infrastructure_error_wins() {
    let candidate = Validation::Success(tree(vec![]));
    let status = process_by_name_dir(Err(anyhow::Error::msg("base unreadable")), Ok(candidate));
    assert_eq!(status.exit_code(), 2);
    match status {
        Status::Error(e) => assert_eq!(e.to_string(), "base unreadable"),
        _ => panic!("expected an error"),
    }
    let status = process_by_name_dir(
        Err(anyhow::Error::msg("base unreadable")),
        Err(anyhow::Error::msg("candidate unreadable")),
    );
    match status {
        Status::Error(e) => assert_eq!(e.to_string(), "candidate unreadable"),
        _ => panic!("expected an error"),
    }
}

#[test]
fn merge_picks_the_most_severe_status() {
    assert!(matches!(merge_statuses(vec![]), Status::ValidatedSuccessfully));
    assert!(matches!(
        merge_statuses(vec![Status::ValidatedSuccessfully, Status::BranchHealed]),
        Status::BranchHealed
    ));
    match merge_statuses(vec![
        Status::DiscouragedPatternedIntroduced(vec![nix_problem("d")]),
        Status::ProblemsIntroduced(vec![nix_problem("a")]),
        Status::BranchHealed,
        Status::ProblemsIntroduced(vec![nix_problem("b"), nix_problem("c")]),
    ]) {
        Status::ProblemsIntroduced(ps) => {
            assert_eq!(ps, vec![nix_problem("a"), nix_problem("b"), nix_problem("c")])
        }
        _ => panic!("expected introduced problems"),
    }
    match merge_statuses(vec![
        Status::ProblemsIntroduced(vec![nix_problem("a")]),
        Status::BranchStillBroken(vec![nix_problem("b")]),
    ]) {
        Status::BranchStillBroken(ps) => assert_eq!(ps, vec![nix_problem("b")]),
        _ => panic!("expected a still broken branch"),
    }
    match merge_statuses(vec![
        Status::BranchStillBroken(vec![nix_problem("b")]),
        Status::Error(anyhow::Error::msg("first")),
        Status::Error(anyhow::Error::msg("second")),
    ]) {
        Status::Error(e) => assert_eq!(e.to_string(), "first"),
        _ => panic!("expected an error"),
    }
    match merge_statuses(vec![
        Status::DiscouragedPatternedIntroduced(vec![nix_problem("x")]),
        Status::ValidatedSuccessfully,
        Status::DiscouragedPatternedIntroduced(vec![nix_problem("y")]),
    ]) {
        Status::DiscouragedPatternedIntroduced(ps) => assert_eq!(ps, vec![nix_problem("x"), nix_problem("y")]),
        _ => panic!("expected discouraged patterns"),
    }
}

#[test]
fn tree_from_results_keeps_all_problems() {
    let packages: Validation<Vec<(String, Package)>> = Validation::Failure(vec![nix_problem("p")]);
    let files: Validation<Vec<(String, File)>> = Validation::Failure(vec![shard_problem()]);
    match nixpkgs_from_results(packages, files) {
        Validation::Failure(ps) => assert_eq!(ps, vec![nix_problem("p"), shard_problem()]),
        Validation::Success(_) => panic!("expected a failure"),
    }
    let packages = Validation::Success(vec![("foo".to_string(), tight())]);
    let files = Validation::Success(vec![("default.nix".to_string(), File {})]);
    match nixpkgs_from_results(packages, files) {
        Validation::Success(t) => {
            assert_eq!(t.packages.len(), 1);
            assert_eq!(t.files.len(), 1);
        }
        Validation::Failure(_) => panic!("expected a success"),
    }
}
