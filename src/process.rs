//! The decisions of a run: what the outcomes of checking the base and the candidate revision
//! mean, and how the statuses of independent by-name directories combine.
use vstd::prelude::*;

use crate::problem::Problem;
use crate::ratchet::{File, Nixpkgs, Package};
use crate::status::{severity, status_problems, Status};
use crate::validation::Validation;

verus! {

/// The tree of one revision from the results of its package checks and its file checks; the
/// problems of both are kept when either fails.
pub fn nixpkgs_from_results(
    package_result: Validation<Vec<(String, Package)>>,
    file_result: Validation<Vec<(String, File)>>,
) -> (r: Validation<Nixpkgs>)
    ensures
        package_result matches Validation::Success(packages) ==> file_result matches Validation::Success(files)
            ==> r == Validation::Success(Nixpkgs { packages, files }),
        (package_result is Failure || file_result is Failure) ==> r is Failure && r.problems()
            == package_result.problems() + file_result.problems(),
        package_result.wf() && file_result.wf() ==> r.wf(),
{
    package_result.and(file_result, make_nixpkgs)
}

fn make_nixpkgs(packages: Vec<(String, Package)>, files: Vec<(String, File)>) -> (t: Nixpkgs)
    ensures
        t == (Nixpkgs { packages, files }),
{
    Nixpkgs { packages, files }
}

/// The status for one by-name directory from the outcome of checking the base revision and
/// the candidate revision. A check that could not run gives an error, the candidate's first.
/// Otherwise: both broken, the candidate's problems persist; only the candidate broken, it
/// introduces its problems; only the base broken, the candidate heals it; both clean, the
/// ratchets of the base are compared with those of the candidate.
pub fn process_by_name_dir(
    base_result: Result<Validation<Nixpkgs>, anyhow::Error>,
    main_result: Result<Validation<Nixpkgs>, anyhow::Error>,
) -> (r: Status)
    requires
        base_result matches Ok(Validation::Success(t)) ==> t.wf(),
        main_result matches Ok(Validation::Success(t)) ==> t.wf(),
    ensures
        main_result matches Err(e) ==> r == Status::Error(e),
        main_result is Ok ==> (base_result matches Err(e) ==> r == Status::Error(e)),
        main_result matches Ok(main) ==> base_result matches Ok(base) ==> match (base, main) {
            (Validation::Failure(_), Validation::Failure(ps)) => r == Status::BranchStillBroken(ps),
            (Validation::Success(_), Validation::Failure(ps)) => r == Status::ProblemsIntroduced(ps),
            (Validation::Failure(_), Validation::Success(_)) => r is BranchHealed,
            (Validation::Success(b), Validation::Success(m)) => {
                let ps = b.problems_against(m);
                &&& ps.len() == 0 ==> r is ValidatedSuccessfully
                &&& ps.len() > 0 ==> (r matches Status::DiscouragedPatternedIntroduced(qs) && qs@ == ps)
            },
        },
{
    let main = match main_result {
        Err(e) => {
            return Status::Error(e);
        },
        Ok(v) => v,
    };
    let base = match base_result {
        Err(e) => {
            return Status::Error(e);
        },
        Ok(v) => v,
    };
    match (base, main) {
        (Validation::Failure(_), Validation::Failure(errors)) => Status::BranchStillBroken(errors),
        (Validation::Success(_), Validation::Failure(errors)) => Status::ProblemsIntroduced(errors),
        (Validation::Failure(_), Validation::Success(_)) => Status::BranchHealed,
        (Validation::Success(base), Validation::Success(main)) => {
            match Nixpkgs::compare(&base, main) {
                Validation::Failure(errors) => Status::DiscouragedPatternedIntroduced(errors),
                Validation::Success(_) => Status::ValidatedSuccessfully,
            }
        },
    }
}

/// The highest severity among `statuses`; that of a clean run when there are none.
pub open spec fn max_severity(statuses: Seq<Status>) -> nat
    decreases statuses.len(),
{
    if statuses.len() == 0 {
        0
    } else {
        let rest = max_severity(statuses.drop_last());
        let last = severity(&statuses.last());
        if last > rest {
            last
        } else {
            rest
        }
    }
}

/// The problems of the statuses of severity `level` among `statuses`, in order.
pub open spec fn problems_at(statuses: Seq<Status>, level: nat) -> Seq<Problem>
    decreases statuses.len(),
{
    if statuses.len() == 0 {
        Seq::empty()
    } else {
        let last = statuses.last();
        let own = if severity(&last) == level {
            status_problems(&last)
        } else {
            Seq::empty()
        };
        problems_at(statuses.drop_last(), level) + own
    }
}

proof fn lemma_problems_at_levels_without_problems(statuses: Seq<Status>, level: nat)
    requires
        level <= 1 || level == 5,
    ensures
        problems_at(statuses, level) == Seq::<Problem>::empty(),
    decreases statuses.len(),
{
    if statuses.len() > 0 {
        lemma_problems_at_levels_without_problems(statuses.drop_last(), level);
        assert(problems_at(statuses, level) =~= Seq::<Problem>::empty());
    }
}

/// Whether `status` is the first error among `statuses`.
pub open spec fn is_first_error(statuses: Seq<Status>, status: Status) -> bool {
    exists|i: int|
        0 <= i < statuses.len() && statuses[i] == status && status is Error && forall|j: int|
            0 <= j < i ==> !(#[trigger] statuses[j] is Error)
}

/// The status of a whole run from the statuses of its by-name directories: the most severe
/// one, from an error down to a clean run. An error is the first one; any other status that
/// carries problems carries those of all statuses of its kind, in order.
pub fn merge_statuses(statuses: Vec<Status>) -> (r: Status)
    ensures
        severity(&r) == max_severity(statuses@),
        r is Error ==> is_first_error(statuses@, r),
        status_problems(&r) == problems_at(statuses@, severity(&r)),
{
    let ghost all = statuses@;
    let mut level: u8 = 0;
    let mut error: Option<anyhow::Error> = None;
    let mut still_broken: Vec<Problem> = Vec::new();
    let mut introduced: Vec<Problem> = Vec::new();
    let mut discouraged: Vec<Problem> = Vec::new();
    let ghost mut error_index: int = 0;
    for status in it: statuses
        invariant
            it.seq() == all,
            level as nat == max_severity(all.take(it.index() as int)),
            still_broken@ == problems_at(all.take(it.index() as int), 4),
            introduced@ == problems_at(all.take(it.index() as int), 3),
            discouraged@ == problems_at(all.take(it.index() as int), 2),
            level <= 5,
            error is Some <==> level == 5,
            error matches Some(e) ==> 0 <= error_index < it.index() && all[error_index] == Status::Error(e)
                && forall|j: int| 0 <= j < error_index ==> !(#[trigger] all[j] is Error),
            error is None ==> forall|j: int| 0 <= j < it.index() ==> !(#[trigger] all[j] is Error),
    {
        let ghost i = it.index() as int;
        proof {
            let pre = all.take(i);
            let post = all.take(i + 1);
            assert(post.drop_last() =~= pre);
            assert(post.last() == all[i]);
            assert(all[i] == status);
        }
        let own: u8 = match &status {
            Status::ValidatedSuccessfully => 0,
            Status::BranchHealed => 1,
            Status::DiscouragedPatternedIntroduced(_) => 2,
            Status::ProblemsIntroduced(_) => 3,
            Status::BranchStillBroken(_) => 4,
            Status::Error(_) => 5,
        };
        assert(own as nat == severity(&status));
        if own > level {
            level = own;
        }
        match status {
            Status::Error(e) => {
                if error.is_none() {
                    error = Some(e);
                    proof {
                        error_index = i;
                    }
                }
            },
            Status::BranchStillBroken(mut ps) => {
                still_broken.append(&mut ps);
            },
            Status::ProblemsIntroduced(mut ps) => {
                introduced.append(&mut ps);
            },
            Status::DiscouragedPatternedIntroduced(mut ps) => {
                discouraged.append(&mut ps);
            },
            _ => {},
        }
    }
    proof {
        assert(all.take(all.len() as int) =~= all);
        if level <= 1 || level == 5 {
            lemma_problems_at_levels_without_problems(all, level as nat);
        }
    }
    match error {
        Some(e) => Status::Error(e),
        None => {
            if level == 4 {
                Status::BranchStillBroken(still_broken)
            } else if level == 3 {
                Status::ProblemsIntroduced(introduced)
            } else if level == 2 {
                Status::DiscouragedPatternedIntroduced(discouraged)
            } else if level == 1 {
                Status::BranchHealed
            } else {
                Status::ValidatedSuccessfully
            }
        },
    }
}

} // verus!
