//! The status of a whole run.
use vstd::prelude::*;
use vstd::string::StringExecFns;

use crate::problem::Problem;

verus! {

/// Relies on anyhow::Error only as a type: an infrastructure failure that stopped a check from
/// running, carried through as an opaque value.
#[verifier::external_type_specification]
#[verifier::external_body]
pub struct ExAnyhowError(anyhow::Error);

/// The status of a run.
pub enum Status {
    /// Both revisions are clean and no ratchet loosened.
    ValidatedSuccessfully,
    /// The base revision is broken and the candidate fixes it.
    BranchHealed,
    /// The base revision is broken and the candidate still is; these are the candidate's
    /// problems.
    BranchStillBroken(Vec<Problem>),
    /// The base revision is clean and the candidate introduces these problems.
    ProblemsIntroduced(Vec<Problem>),
    /// Both revisions are clean, but the candidate loosens ratchets as listed.
    DiscouragedPatternedIntroduced(Vec<Problem>),
    /// A check could not run.
    Error(anyhow::Error),
}

/// The exit code of the process for a status: 0 for success, 1 when problems were found, 2
/// when a check could not run.
pub open spec fn status_exit_code(status: &Status) -> u8 {
    match status {
        Status::ValidatedSuccessfully | Status::BranchHealed => 0,
        Status::BranchStillBroken(_)
        | Status::ProblemsIntroduced(_)
        | Status::DiscouragedPatternedIntroduced(_) => 1,
        Status::Error(_) => 2,
    }
}

/// How severe a status is, from a clean run up to an error.
pub open spec fn severity(status: &Status) -> nat {
    match status {
        Status::ValidatedSuccessfully => 0,
        Status::BranchHealed => 1,
        Status::DiscouragedPatternedIntroduced(_) => 2,
        Status::ProblemsIntroduced(_) => 3,
        Status::BranchStillBroken(_) => 4,
        Status::Error(_) => 5,
    }
}

/// The problems that a status carries; empty for one without problems.
pub open spec fn status_problems(status: &Status) -> Seq<Problem> {
    match status {
        Status::BranchStillBroken(ps)
        | Status::ProblemsIntroduced(ps)
        | Status::DiscouragedPatternedIntroduced(ps) => ps@,
        _ => Seq::empty(),
    }
}

/// The sentence that ends the report of a status. For an error, the error's own description
/// follows it.
pub open spec fn status_message(status: &Status) -> Seq<char> {
    match status {
        Status::ValidatedSuccessfully => "Validated successfully"@,
        Status::BranchHealed => "The base branch is broken, but this PR fixes it. Nice job!"@,
        Status::BranchStillBroken(_) => "The base branch is broken and still has above problems with this PR, which need to be fixed first.\nConsider reverting the PR that introduced these problems in order to prevent more failures of unrelated PRs."@,
        Status::ProblemsIntroduced(_) => "This PR introduces the problems listed above. Please fix them before merging, otherwise the base branch would break."@,
        Status::DiscouragedPatternedIntroduced(_) => "This PR introduces additional instances of discouraged patterns as listed above. Merging is discouraged but would not break the base branch."@,
        Status::Error(_) => "I/O error: "@,
    }
}

impl Status {
    /// The problems of a status that carries problems.
    pub fn errors(&self) -> (r: Option<&Vec<Problem>>)
        ensures
            match self {
                Status::BranchStillBroken(ps)
                | Status::ProblemsIntroduced(ps)
                | Status::DiscouragedPatternedIntroduced(ps) => r == Some(ps),
                _ => r is None,
            },
    {
        match self {
            Status::ValidatedSuccessfully | Status::BranchHealed | Status::Error(_) => None,
            Status::BranchStillBroken(errors)
            | Status::ProblemsIntroduced(errors)
            | Status::DiscouragedPatternedIntroduced(errors) => Some(errors),
        }
    }

    /// The exit code of the process, whatever the problems attached.
    pub fn exit_code(&self) -> (r: u8)
        ensures
            r == status_exit_code(self),
    {
        match self {
            Status::ValidatedSuccessfully | Status::BranchHealed => 0,
            Status::BranchStillBroken(_)
            | Status::ProblemsIntroduced(_)
            | Status::DiscouragedPatternedIntroduced(_) => 1,
            Status::Error(_) => 2,
        }
    }

    /// The sentence that follows the problems in the report.
    pub fn message(&self) -> (r: &'static str)
        ensures
            r@ == status_message(self),
    {
        match self {
            Status::ValidatedSuccessfully => "Validated successfully",
            Status::BranchHealed => "The base branch is broken, but this PR fixes it. Nice job!",
            Status::BranchStillBroken(_) => "The base branch is broken and still has above problems with this PR, which need to be fixed first.\nConsider reverting the PR that introduced these problems in order to prevent more failures of unrelated PRs.",
            Status::ProblemsIntroduced(_) => "This PR introduces the problems listed above. Please fix them before merging, otherwise the base branch would break.",
            Status::DiscouragedPatternedIntroduced(_) => "This PR introduces additional instances of discouraged patterns as listed above. Merging is discouraged but would not break the base branch.",
            Status::Error(_) => "I/O error: ",
        }
    }
}

/// The exit code depends on the kind of status alone: success for a clean or healed run,
/// failure for problems, and a distinct code for a check that could not run.
pub proof fn lemma_exit_code_by_kind(status: Status)
    ensures
        status is ValidatedSuccessfully || status is BranchHealed <==> status_exit_code(&status) == 0,
        status is BranchStillBroken || status is ProblemsIntroduced
            || status is DiscouragedPatternedIntroduced <==> status_exit_code(&status) == 1,
        status is Error <==> status_exit_code(&status) == 2,
{
}

/// The rendered problems of a report, each followed by a newline, in order.
pub open spec fn problem_lines(rendered: Seq<Seq<char>>) -> Seq<char>
    decreases rendered.len(),
{
    if rendered.len() == 0 {
        Seq::empty()
    } else {
        problem_lines(rendered.drop_last()) + rendered.last() + seq!['\n']
    }
}

/// The report of a status: each rendered problem followed by a newline, in order, then the
/// summary sentence between `open` and `close` (the codes that style it, or nothing); for an
/// error, a space and the cause follow.
pub open spec fn report_text(
    status: &Status,
    rendered: Seq<Seq<char>>,
    cause: Seq<char>,
    open: Seq<char>,
    close: Seq<char>,
) -> Seq<char> {
    problem_lines(rendered) + open + status_message(status) + close + if status is Error {
        seq![' '] + cause
    } else {
        Seq::<char>::empty()
    }
}

/// The report of a status, from the text of each of its problems and, for an error, the text of
/// its cause. A status without problems reports its summary sentence alone.
pub fn report(status: &Status, rendered: &Vec<String>, cause: &String, open: &String, close: &String) -> (r: String)
    requires
        rendered@.len() == status_problems(status).len(),
    ensures
        r@ == report_text(status, rendered@.map_values(|s: String| s@), cause@, open@, close@),
{
    let ghost views = rendered@.map_values(|s: String| s@);
    let mut out = String::new();
    let mut i: usize = 0;
    proof {
        reveal_strlit("\n");
        assert("\n"@ =~= seq!['\n']);
        assert(out@ =~= problem_lines(views.take(0)));
    }
    while i < rendered.len()
        invariant
            views == rendered@.map_values(|s: String| s@),
            i <= rendered@.len(),
            out@ == problem_lines(views.take(i as int)),
            "\n"@ == seq!['\n'],
        decreases rendered@.len() - i,
    {
        proof {
            assert(views.take(i + 1).drop_last() =~= views.take(i as int));
            assert(views.take(i + 1).last() == rendered@[i as int]@);
        }
        out.append(rendered[i].as_str());
        out.append("\n");
        i = i + 1;
    }
    proof {
        assert(views.take(views.len() as int) =~= views);
    }
    out.append(open.as_str());
    out.append(status.message());
    out.append(close.as_str());
    if let Status::Error(_) = status {
        proof {
            reveal_strlit(" ");
            assert(" "@ =~= seq![' ']);
        }
        out.append(" ");
        out.append(cause.as_str());
        proof {
            assert(out@ =~= report_text(status, views, cause@, open@, close@));
        }
    } else {
        proof {
            assert(out@ =~= report_text(status, views, cause@, open@, close@));
        }
    }
    out
}

} // verus!
