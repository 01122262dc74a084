//! A result type that accumulates problems instead of stopping at the first one.
use vstd::prelude::*;

use crate::problem::Problem;

verus! {

/// A computed value, or the problems that were found while computing it.
///
/// Combining two validations keeps the problems of both sides, so that a single run reports
/// every problem rather than the first one.
#[derive(Clone, Debug)]
pub enum Validation<T> {
    Success(T),
    Failure(Vec<Problem>),
}

impl<T> Validation<T> {
    /// The problems held, in the order in which they were found; empty for a success.
    pub open spec fn problems(&self) -> Seq<Problem> {
        match self {
            Validation::Success(_) => Seq::empty(),
            Validation::Failure(ps) => ps@,
        }
    }

    /// A failure holds at least one problem.
    pub open spec fn wf(&self) -> bool {
        self is Failure ==> self.problems().len() > 0
    }

    /// A failure that holds just one problem.
    pub fn from_problem(problem: Problem) -> (r: Self)
        ensures
            r is Failure,
            r.problems() == seq![problem],
            r.wf(),
    {
        let mut ps: Vec<Problem> = Vec::new();
        ps.push(problem);
        proof {
            assert(ps@ =~= seq![problem]);
        }
        Validation::Failure(ps)
    }

    /// Transforms the value of a success; a failure passes through unchanged.
    pub fn map<U, F: FnOnce(T) -> U>(self, f: F) -> (r: Validation<U>)
        requires
            self matches Validation::Success(v) ==> f.requires((v,)),
        ensures
            self matches Validation::Success(v) ==> r matches Validation::Success(u) && f.ensures(
                (v,),
                u,
            ),
            self is Failure ==> r is Failure && r.problems() == self.problems(),
            self.wf() ==> r.wf(),
    {
        match self {
            Validation::Success(v) => Validation::Success(f(v)),
            Validation::Failure(ps) => Validation::Failure(ps),
        }
    }

    /// Combines two validations. Both succeed: the values are combined by `f`. Otherwise the
    /// result fails with the problems of `self` followed by those of `other`.
    pub fn and<U, V, F: FnOnce(T, U) -> V>(self, other: Validation<U>, f: F) -> (r: Validation<V>)
        requires
            self matches Validation::Success(a) ==> other matches Validation::Success(b)
                ==> f.requires((a, b)),
        ensures
            self matches Validation::Success(a) ==> other matches Validation::Success(b)
                ==> r matches Validation::Success(c) && f.ensures((a, b), c),
            (self is Failure || other is Failure) ==> r is Failure && r.problems()
                == self.problems() + other.problems(),
            self.wf() && other.wf() ==> r.wf(),
    {
        match (self, other) {
            (Validation::Success(a), Validation::Success(b)) => Validation::Success(f(a, b)),
            (Validation::Failure(mut ps), Validation::Failure(mut qs)) => {
                ps.append(&mut qs);
                Validation::Failure(ps)
            },
            (Validation::Failure(ps), Validation::Success(_)) => Validation::Failure(ps),
            (Validation::Success(_), Validation::Failure(qs)) => Validation::Failure(qs),
        }
    }
}

impl<T> Validation<T> {
    /// Runs a step that may fail outright on the value of a success. A failure passes through
    /// without running it.
    pub fn result_map<U, E, F: FnOnce(T) -> Result<Validation<U>, E>>(self, f: F) -> (r: Result<
        Validation<U>,
        E,
    >)
        requires
            self matches Validation::Success(v) ==> f.requires((v,)),
        ensures
            self matches Validation::Success(v) ==> f.ensures((v,), r),
            self is Failure ==> (r matches Ok(w) && w is Failure && w.problems() == self.problems()),
    {
        match self {
            Validation::Success(v) => f(v),
            Validation::Failure(ps) => Ok(Validation::Failure(ps)),
        }
    }
}

impl Validation<()> {
    /// Combines a validation that carries no value with another one: the value of `other` is
    /// kept when both succeed, and the problems of both are kept otherwise.
    pub fn and_<U>(self, other: Validation<U>) -> (r: Validation<U>)
        ensures
            self is Success ==> r == other,
            self is Failure ==> r is Failure && r.problems() == self.problems() + other.problems(),
            self.wf() && other.wf() ==> r.wf(),
    {
        match (self, other) {
            (Validation::Success(_), o) => o,
            (Validation::Failure(mut ps), Validation::Failure(mut qs)) => {
                ps.append(&mut qs);
                Validation::Failure(ps)
            },
            (Validation::Failure(ps), Validation::Success(_)) => Validation::Failure(ps),
        }
    }
}

/// The problems of all validations of `vs`, in order.
pub open spec fn all_problems<T>(vs: Seq<Validation<T>>) -> Seq<Problem>
    decreases vs.len(),
{
    if vs.len() == 0 {
        Seq::empty()
    } else {
        all_problems(vs.drop_last()) + vs.last().problems()
    }
}

/// The number of problems over all validations of `vs`.
pub open spec fn problem_count<T>(vs: Seq<Validation<T>>) -> nat
    decreases vs.len(),
{
    if vs.len() == 0 {
        0
    } else {
        problem_count(vs.drop_last()) + vs.last().problems().len()
    }
}

/// Whether every validation of `vs` succeeds.
pub open spec fn all_succeed<T>(vs: Seq<Validation<T>>) -> bool {
    forall|i: int| 0 <= i < vs.len() ==> (#[trigger] vs[i]) is Success
}

/// Whether every validation of `vs` is well formed.
pub open spec fn all_wf<T>(vs: Seq<Validation<T>>) -> bool {
    forall|i: int| 0 <= i < vs.len() ==> (#[trigger] vs[i]).wf()
}

/// The values of validations that all succeed.
pub open spec fn success_values<T>(vs: Seq<Validation<T>>) -> Seq<T> {
    vs.map_values(|v: Validation<T>| v->Success_0)
}

proof fn lemma_all_problems_prefix<T>(vs: Seq<Validation<T>>, i: int)
    requires
        0 <= i < vs.len(),
    ensures
        all_problems(vs.take(i + 1)) == all_problems(vs.take(i)) + vs[i].problems(),
{
    assert(vs.take(i + 1).drop_last() =~= vs.take(i));
}

/// Without a failure there are no problems; with a well-formed failure there are some.
proof fn lemma_all_problems_empty<T>(vs: Seq<Validation<T>>)
    ensures
        all_succeed(vs) ==> all_problems(vs) == Seq::<Problem>::empty(),
        all_wf(vs) && !all_succeed(vs) ==> all_problems(vs).len() > 0,
    decreases vs.len(),
{
    if vs.len() > 0 {
        let init = vs.drop_last();
        if all_wf(vs) {
            assert forall|i: int| 0 <= i < init.len() implies (#[trigger] init[i]).wf() by {
                assert(init[i] == vs[i]);
            }
        }
        lemma_all_problems_empty(init);
        if all_succeed(vs) {
            assert forall|i: int| 0 <= i < init.len() implies (#[trigger] init[i]) is Success by {
                assert(init[i] == vs[i]);
            }
            assert(vs[vs.len() - 1] is Success);
        }
        if all_succeed(init) && vs.last() is Success {
            assert forall|i: int| 0 <= i < vs.len() implies (#[trigger] vs[i]) is Success by {
                if i < vs.len() - 1 {
                    assert(init[i] == vs[i]);
                }
            }
        }
        assert(vs.last() == vs[vs.len() - 1]);
    }
    if all_succeed(vs) && vs.len() > 0 {
        assert(all_problems(vs) =~= all_problems(vs.drop_last()));
    }
}

/// Collects the values of validations that all succeed. Otherwise fails with the problems of
/// every failing element, in the order of `vs`.
pub fn sequence<T>(vs: Vec<Validation<T>>) -> (r: Validation<Vec<T>>)
    ensures
        r is Success <==> all_succeed(vs@),
        r matches Validation::Success(values) ==> values@ == success_values(vs@),
        r.problems() == all_problems(vs@),
        all_wf(vs@) ==> r.wf(),
{
    let ghost elems = vs@;
    let mut values: Vec<T> = Vec::new();
    let mut problems: Vec<Problem> = Vec::new();
    let mut failed = false;
    for v in it: vs
        invariant
            it.seq() == elems,
            problems@ == all_problems(elems.take(it.index() as int)),
            failed <==> !all_succeed(elems.take(it.index() as int)),
            !failed ==> values@ == success_values(elems.take(it.index() as int)),
    {
        let ghost i = it.index() as int;
        proof {
            lemma_all_problems_prefix(elems, i);
            assert(elems[i] == v);
            let pre = elems.take(i);
            let post = elems.take(i + 1);
            assert(post =~= pre.push(v));
            if all_succeed(post) {
                assert forall|j: int| 0 <= j < pre.len() implies (#[trigger] pre[j]) is Success by {
                    assert(pre[j] == post[j]);
                }
            }
            if all_succeed(pre) && v is Success {
                assert forall|j: int| 0 <= j < post.len() implies (#[trigger] post[j]) is Success by {
                    if j < pre.len() {
                        assert(pre[j] == post[j]);
                    }
                }
            }
            if !all_succeed(pre) {
                let j = choose|j: int| 0 <= j < pre.len() && !((#[trigger] pre[j]) is Success);
                assert(post[j] == pre[j]);
            }
            if !(v is Success) {
                assert(post[i] == v);
            }
        }
        match v {
            Validation::Success(x) => {
                values.push(x);
            },
            Validation::Failure(mut ps) => {
                problems.append(&mut ps);
                failed = true;
            },
        }
        proof {
            let pre = elems.take(i);
            let post = elems.take(i + 1);
            assert(success_values(post) =~= success_values(pre).push(post[i]->Success_0));
        }
    }
    proof {
        assert(elems.take(elems.len() as int) =~= elems);
    }
    proof {
        lemma_all_problems_empty(elems);
    }
    if failed {
        Validation::Failure(problems)
    } else {
        Validation::Success(values)
    }
}

/// Like `sequence`, for validations that carry no value.
pub fn sequence_(vs: Vec<Validation<()>>) -> (r: Validation<()>)
    ensures
        r is Success <==> all_succeed(vs@),
        r.problems() == all_problems(vs@),
        all_wf(vs@) ==> r.wf(),
{
    match sequence(vs) {
        Validation::Success(_) => Validation::Success(()),
        Validation::Failure(ps) => Validation::Failure(ps),
    }
}

/// A sequence of validations yields exactly as many problems as its elements hold together.
pub proof fn lemma_sequence_problem_count<T>(vs: Seq<Validation<T>>)
    ensures
        all_problems(vs).len() == problem_count(vs),
    decreases vs.len(),
{
    if vs.len() > 0 {
        lemma_sequence_problem_count(vs.drop_last());
    }
}

/// Collects the values of results that all succeed, stopping at the first error. This is for
/// failures that mean a check could not run at all, which are never accumulated.
pub fn collect_vec<T, E>(rs: Vec<Result<T, E>>) -> (r: Result<Vec<T>, E>)
    ensures
        r is Ok <==> forall|i: int| 0 <= i < rs@.len() ==> (#[trigger] rs@[i]) is Ok,
        r matches Ok(v) ==> v@ == rs@.map_values(|x: Result<T, E>| x->Ok_0),
        r matches Err(e) ==> exists|i: int|
            0 <= i < rs@.len() && rs@[i] == Err::<T, E>(e) && forall|j: int|
                0 <= j < i ==> (#[trigger] rs@[j]) is Ok,
{
    let ghost all = rs@;
    let mut values: Vec<T> = Vec::new();
    for x in it: rs
        invariant
            it.seq() == all,
            forall|j: int| 0 <= j < it.index() ==> (#[trigger] all[j]) is Ok,
            values@ == all.take(it.index() as int).map_values(|x: Result<T, E>| x->Ok_0),
    {
        let ghost i = it.index() as int;
        proof {
            assert(all[i] == x);
        }
        match x {
            Ok(v) => {
                values.push(v);
                proof {
                    assert(all.take(i + 1).map_values(|x: Result<T, E>| x->Ok_0) =~= all.take(i).map_values(
                        |x: Result<T, E>| x->Ok_0,
                    ).push(v));
                }
            },
            Err(e) => {
                return Err(e);
            },
        }
    }
    proof {
        assert(all.take(all.len() as int) =~= all);
    }
    Ok(values)
}

} // verus!
