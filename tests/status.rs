use nixpkgs_vet::problem::{PackageNixIsNotFile, Problem};
use nixpkgs_vet::status::{report, Status};

fn problems(n: usize) -> Vec<Problem> {
    (0..n)
        .map(|i| Problem::PackageNixIsNotFile(PackageNixIsNotFile::new(format!("p{i}"))))
        .collect()
}

#[test]
fn exit_codes_depend_on_the_status_alone() {
    for n in [0usize, 1, 5] {
        assert_eq!(Status::ValidatedSuccessfully.exit_code(), 0);
        assert_eq!(Status::BranchHealed.exit_code(), 0);
        assert_eq!(Status::BranchStillBroken(problems(n)).exit_code(), 1);
        assert_eq!(Status::ProblemsIntroduced(problems(n)).exit_code(), 1);
        assert_eq!(Status::DiscouragedPatternedIntroduced(problems(n)).exit_code(), 1);
        assert_eq!(Status::Error(anyhow::Error::msg("broken")).exit_code(), 2);
    }
}

#[test]
fn errors_only_for_statuses_with_problems() {
    assert!(Status::ValidatedSuccessfully.errors().is_none());
    assert!(Status::BranchHealed.errors().is_none());
    assert!(Status::Error(anyhow::Error::msg("broken")).errors().is_none());
    assert_eq!(Status::ProblemsIntroduced(problems(2)).errors(), Some(&problems(2)));
    assert_eq!(Status::BranchStillBroken(problems(1)).errors(), Some(&problems(1)));
    assert_eq!(Status::DiscouragedPatternedIntroduced(problems(3)).errors(), Some(&problems(3)));
}

#[test]
fn messages_of_statuses() {
    assert_eq!(Status::ValidatedSuccessfully.message(), "Validated successfully");
    assert_eq!(
        Status::BranchHealed.message(),
        "The base branch is broken, but this PR fixes it. Nice job!"
    );
    assert_eq!(
        Status::ProblemsIntroduced(problems(1)).message(),
        "This PR introduces the problems listed above. Please fix them before merging, otherwise the base branch would break."
    );
    assert_eq!(
        Status::DiscouragedPatternedIntroduced(problems(1)).message(),
        "This PR introduces additional instances of discouraged patterns as listed above. Merging is discouraged but would not break the base branch."
    );
    assert!(Status::BranchStillBroken(problems(1)).message().starts_with("The base branch is broken and still has above problems"));
    assert_eq!(Status::Error(anyhow::Error::msg("x")).message(), "I/O error: ");
}

fn plain_report(status: &Status, rendered: &[&str], cause: &str) -> String {
    let rendered: Vec<String> = rendered.iter().map(|s| s.to_string()).collect();
    report(status, &rendered, &cause.to_string(), &String::new(), &String::new())
}

#[test]
fn healed_report_is_the_summary_only() {
    assert_eq!(
        plain_report(&Status::BranchHealed, &[], ""),
        "The base branch is broken, but this PR fixes it. Nice job!"
    );
    assert_eq!(plain_report(&Status::ValidatedSuccessfully, &[], ""), "Validated successfully");
}

#[test]
fn report_lists_problems_before_the_summary() {
    let status = Status::ProblemsIntroduced(problems(1));
    assert_eq!(
        plain_report(&status, &["- pkgs/by-name/p0: broken"], ""),
        "- pkgs/by-name/p0: broken\nThis PR introduces the problems listed above. Please fix them before merging, otherwise the base branch would break."
    );
    let status = Status::DiscouragedPatternedIntroduced(problems(2));
    let text = plain_report(&status, &["- a", "- b"], "");
    assert!(text.starts_with("- a\n- b\nThis PR introduces additional instances"));
}

#[test]
fn error_report_names_its_cause() {
    let status = Status::Error(anyhow::Error::msg("boom"));
    assert_eq!(plain_report(&status, &[], "boom"), "I/O error:  boom");
}

#[test]
fn report_wraps_the_summary_in_its_codes() {
    let rendered: Vec<String> = Vec::new();
    let text = report(
        &Status::ValidatedSuccessfully,
        &rendered,
        &String::new(),
        &"<".to_string(),
        &">".to_string(),
    );
    assert_eq!(text, "<Validated successfully>");
}
