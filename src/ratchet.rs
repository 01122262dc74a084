//! Ratchet checks: a check may tighten from one revision to the next but never loosen, and
//! existing looseness is allowed to stay.
use vstd::prelude::*;
use vstd::string::StrSliceExecFns;

use crate::problem::{
    NewTopLevelPackageShouldBeByName, NewTopLevelPackageShouldBeByNameWithCustomArgument, Problem,
    TopLevelPackageMovedOutOfByName, TopLevelPackageMovedOutOfByNameWithCustomArguments,
};
use crate::validation::{sequence_, Validation};

verus! {

/// The state of one ratchet check for one item in one revision.
#[derive(Clone, Debug)]
pub enum RatchetState<C> {
    /// The item follows the legacy pattern that is being moved away from. The context says how,
    /// so that a problem can be described if this state is newly introduced.
    Loose(C),
    /// The item follows the current convention.
    Tight,
    /// The check cannot be applied to the item; transitions from and to this state are always
    /// accepted.
    NonApplicable,
}

/// The value behind an optional reference.
pub open spec fn deref_option<A>(o: Option<&A>) -> Option<A> {
    match o {
        Some(a) => Some(*a),
        None => None,
    }
}

/// Whether going from `previous` (absent for a new item) to `current` loosens the ratchet:
/// a loose state is refused for a new item and for an item that was tight.
pub open spec fn ratchet_rejects<C>(previous: Option<RatchetState<C>>, current: RatchetState<C>) -> bool {
    &&& current is Loose
    &&& (previous is None || previous matches Some(RatchetState::Tight))
}

/// The problems of one ratchet transition, with `to_problem` describing a refused loose
/// context from the item name and whether the item existed before.
pub open spec fn ratchet_problems<C>(
    name: String,
    previous: Option<RatchetState<C>>,
    current: RatchetState<C>,
    to_problem: spec_fn(String, bool, C) -> Problem,
) -> Seq<Problem> {
    if ratchet_rejects(previous, current) {
        seq![to_problem(name, previous is Some, current->Loose_0)]
    } else {
        Seq::empty()
    }
}

/// Compares the previous state of a check on an item (absent for a new item) with its current
/// state. A refused transition yields the one problem that `to_problem` makes of the current
/// loose context; every other transition is accepted.
pub fn compare_ratchet<C, F: Fn(&String, bool, C) -> Problem>(
    name: &String,
    previous: Option<&RatchetState<C>>,
    current: RatchetState<C>,
    to_problem: F,
) -> (r: Validation<()>)
    requires
        current matches RatchetState::Loose(c) ==> to_problem.requires((name, previous is Some, c)),
    ensures
        r.wf(),
        r is Failure <==> ratchet_rejects(deref_option(previous), current),
        r is Failure ==> r.problems().len() == 1 && to_problem.ensures(
            (name, previous is Some, current->Loose_0),
            r.problems()[0],
        ),
{
    let existed = previous.is_some();
    match current {
        RatchetState::Loose(context) => {
            let loosened = match previous {
                None => true,
                Some(RatchetState::Tight) => true,
                Some(_) => false,
            };
            if loosened {
                Validation::from_problem(to_problem(name, existed, context))
            } else {
                Validation::Success(())
            }
        },
        _ => Validation::Success(()),
    }
}

/// The check whether a by-name package keeps a manual definition that could be removed. Its
/// loose context is the problem to report.
pub struct ManualDefinition;

impl ManualDefinition {
    pub open spec fn problem(name: String, existed: bool, context: Problem) -> Problem {
        context
    }

    /// The problem for a refused loose state: the context itself.
    pub fn to_problem(name: &String, existed: bool, context: Problem) -> (r: Problem)
        ensures
            r == Self::problem(*name, existed, context),
    {
        context
    }
}

/// What a manual `callPackage` definition passes: the path of its first argument, if it lies
/// in the tree, and whether its second argument is empty.
#[derive(Clone, Debug, PartialEq, Eq)]
pub struct CallPackageArgumentInfo {
    pub relative_path: Option<String>,
    pub empty_arg: bool,
}

/// The loose context of the check that packages use a by-name directory: the manual
/// `callPackage`, the file that holds it, and the by-name directory the package belongs in.
#[derive(Clone, Debug, PartialEq, Eq)]
pub struct UsesByNameContext {
    pub call_package: CallPackageArgumentInfo,
    pub file: String,
    pub by_name_path: String,
}

/// The check that new packages are defined in a by-name directory, and that packages defined
/// there do not move back to a manual definition.
pub struct UsesByName;

impl UsesByName {
    pub open spec fn problem(name: String, existed: bool, context: UsesByNameContext) -> Problem {
        let path = context.call_package.relative_path;
        match (existed, context.call_package.empty_arg) {
            (true, true) => Problem::TopLevelPackageMovedOutOfByName(
                TopLevelPackageMovedOutOfByName {
                    package_name: name,
                    call_package_path: path,
                    file: context.file,
                    by_name_path: context.by_name_path,
                },
            ),
            (true, false) => Problem::TopLevelPackageMovedOutOfByNameWithCustomArguments(
                TopLevelPackageMovedOutOfByNameWithCustomArguments {
                    package_name: name,
                    call_package_path: path,
                    file: context.file,
                    by_name_path: context.by_name_path,
                },
            ),
            (false, true) => Problem::NewTopLevelPackageShouldBeByName(
                NewTopLevelPackageShouldBeByName {
                    attr_path: name,
                    call_package_path: path,
                    file: context.file,
                    by_name_path: context.by_name_path,
                },
            ),
            (false, false) => Problem::NewTopLevelPackageShouldBeByNameWithCustomArgument(
                NewTopLevelPackageShouldBeByNameWithCustomArgument {
                    package_name: name,
                    call_package_path: path,
                    file: context.file,
                    by_name_path: context.by_name_path,
                },
            ),
        }
    }

    /// The problem for a refused loose state: which one depends on whether the package existed
    /// before and whether the second `callPackage` argument is empty.
    pub fn to_problem(name: &String, existed: bool, context: UsesByNameContext) -> (r: Problem)
        ensures
            r == Self::problem(*name, existed, context),
    {
        let package_name = name.clone();
        let UsesByNameContext { call_package, file, by_name_path } = context;
        let call_package_path = call_package.relative_path;
        if existed {
            if call_package.empty_arg {
                Problem::TopLevelPackageMovedOutOfByName(
                    TopLevelPackageMovedOutOfByName {
                        package_name,
                        call_package_path,
                        file,
                        by_name_path,
                    },
                )
            } else {
                Problem::TopLevelPackageMovedOutOfByNameWithCustomArguments(
                    TopLevelPackageMovedOutOfByNameWithCustomArguments {
                        package_name,
                        call_package_path,
                        file,
                        by_name_path,
                    },
                )
            }
        } else {
            if call_package.empty_arg {
                Problem::NewTopLevelPackageShouldBeByName(
                    NewTopLevelPackageShouldBeByName {
                        attr_path: package_name,
                        call_package_path,
                        file,
                        by_name_path,
                    },
                )
            } else {
                Problem::NewTopLevelPackageShouldBeByNameWithCustomArgument(
                    NewTopLevelPackageShouldBeByNameWithCustomArgument {
                        package_name,
                        call_package_path,
                        file,
                        by_name_path,
                    },
                )
            }
        }
    }
}

/// The ratchet states of one package.
#[derive(Clone, Debug)]
pub struct Package {
    /// Whether a manual definition could be removed.
    pub manual_definition: RatchetState<Problem>,
    /// Whether the package uses a by-name directory.
    pub uses_by_name: RatchetState<UsesByNameContext>,
}

/// The problems of comparing the previous ratchet states of a package (absent for a new
/// package) with its current ones: those of each check, in field order.
pub open spec fn package_problems(name: String, previous: Option<Package>, current: Package) -> Seq<
    Problem,
> {
    let previous_manual = match previous {
        Some(p) => Some(p.manual_definition),
        None => None,
    };
    let previous_by_name = match previous {
        Some(p) => Some(p.uses_by_name),
        None => None,
    };
    ratchet_problems(
        name,
        previous_manual,
        current.manual_definition,
        |n: String, e: bool, c: Problem| ManualDefinition::problem(n, e, c),
    ) + ratchet_problems(
        name,
        previous_by_name,
        current.uses_by_name,
        |n: String, e: bool, c: UsesByNameContext| UsesByName::problem(n, e, c),
    )
}

impl Package {
    /// Compares every check of a package independently; no check masks another.
    pub fn compare(name: &String, optional_from: Option<&Package>, to: Package) -> (r: Validation<
        (),
    >)
        ensures
            r.wf(),
            r.problems() == package_problems(*name, deref_option(optional_from), to),
            r is Success <==> r.problems().len() == 0,
    {
        let Package { manual_definition, uses_by_name } = to;
        let from_manual = match optional_from {
            Some(p) => Some(&p.manual_definition),
            None => None,
        };
        let from_by_name = match optional_from {
            Some(p) => Some(&p.uses_by_name),
            None => None,
        };
        let manual = compare_ratchet(name, from_manual, manual_definition, ManualDefinition::to_problem);
        let by_name = compare_ratchet(name, from_by_name, uses_by_name, UsesByName::to_problem);
        proof {
            let ghost p = deref_option(optional_from);
            assert(deref_option(from_manual) == match p { Some(q) => Some(q.manual_definition), None => None::<RatchetState<Problem>> });
            assert(deref_option(from_by_name) == match p { Some(q) => Some(q.uses_by_name), None => None::<RatchetState<UsesByNameContext>> });
        }
        let r = manual.and_(by_name);
        proof {
            if manual is Failure {
                assert(manual.problems() =~= seq![manual.problems()[0]]);
            }
            if by_name is Failure {
                assert(by_name.problems() =~= seq![by_name.problems()[0]]);
            }
        }
        r
    }
}

/// The ratchet states of one file. No file-level check is defined yet, so a file compares
/// cleanly whatever its history.
#[derive(Clone, Debug, PartialEq, Eq)]
pub struct File {}

impl File {
    pub fn compare(name: &String, optional_from: Option<&File>, to: &File) -> (r: Validation<()>)
        ensures
            r is Success,
    {
        Validation::Success(())
    }
}

/// The first package named `name` among `entries`.
pub open spec fn lookup(entries: Seq<(String, Package)>, name: Seq<char>) -> Option<Package>
    decreases entries.len(),
{
    if entries.len() == 0 {
        None
    } else if entries[0].0@ == name {
        Some(entries[0].1)
    } else {
        lookup(entries.drop_first(), name)
    }
}

/// The entries of `entries` that are not named `name`, in order.
pub open spec fn without(entries: Seq<(String, Package)>, name: Seq<char>) -> Seq<(String, Package)>
    decreases entries.len(),
{
    if entries.len() == 0 {
        entries
    } else if entries[0].0@ == name {
        without(entries.drop_first(), name)
    } else {
        seq![entries[0]] + without(entries.drop_first(), name)
    }
}

/// Whether no two entries share a name.
pub open spec fn names_distinct<T>(entries: Seq<(String, T)>) -> bool {
    forall|i: int, j: int|
        0 <= i < j < entries.len() ==> (#[trigger] entries[i]).0@ != (#[trigger] entries[j]).0@
}

/// Whether some entry is named `name`.
pub open spec fn has_name<T>(entries: Seq<(String, T)>, name: Seq<char>) -> bool {
    exists|i: int| 0 <= i < entries.len() && (#[trigger] entries[i]).0@ == name
}

/// The problems of comparing the packages of a previous tree with the packages `current`:
/// those of each current package against the package of the same name before, in order.
pub open spec fn packages_problems(previous: Seq<(String, Package)>, current: Seq<(String, Package)>) -> Seq<
    Problem,
>
    decreases current.len(),
{
    if current.len() == 0 {
        Seq::empty()
    } else {
        let (name, package) = current.last();
        packages_problems(previous, current.drop_last()) + package_problems(
            name,
            lookup(previous, name@),
            package,
        )
    }
}

/// Whether the name `a` sorts strictly before `b`: by code point, a proper prefix first. This is
/// the order of `String`, and so the order of a map keyed by name.
pub open spec fn name_lt(a: Seq<char>, b: Seq<char>) -> bool
    decreases a.len(),
{
    if a.len() == 0 {
        b.len() > 0
    } else if b.len() == 0 {
        false
    } else if a[0] != b[0] {
        (a[0] as u32) < (b[0] as u32)
    } else {
        name_lt(a.drop_first(), b.drop_first())
    }
}

/// Whether the names of `entries` strictly ascend.
pub open spec fn strictly_ascending<T>(entries: Seq<(String, T)>) -> bool {
    forall|i: int, j: int|
        0 <= i < j < entries.len() ==> name_lt((#[trigger] entries[i]).0@, (#[trigger] entries[j]).0@)
}

/// A name never sorts before itself.
pub proof fn lemma_name_lt_irreflexive(a: Seq<char>)
    ensures
        !name_lt(a, a),
    decreases a.len(),
{
    if a.len() > 0 {
        lemma_name_lt_irreflexive(a.drop_first());
    }
}

/// The order of names is transitive.
pub proof fn lemma_name_lt_transitive(a: Seq<char>, b: Seq<char>, c: Seq<char>)
    requires
        name_lt(a, b),
        name_lt(b, c),
    ensures
        name_lt(a, c),
    decreases a.len(),
{
    if a.len() > 0 && b.len() > 0 && c.len() > 0 && a[0] == b[0] && b[0] == c[0] {
        lemma_name_lt_transitive(a.drop_first(), b.drop_first(), c.drop_first());
    }
}

proof fn lemma_ascending_distinct<T>(entries: Seq<(String, T)>)
    requires
        strictly_ascending(entries),
    ensures
        names_distinct(entries),
{
    assert forall|i: int, j: int| 0 <= i < j < entries.len() implies (#[trigger] entries[i]).0@
        != (#[trigger] entries[j]).0@ by {
        lemma_name_lt_irreflexive(entries[i].0@);
    }
}

/// Whether the name `a` sorts strictly before `b`.
pub fn name_sorts_before(a: &str, b: &str) -> (r: bool)
    ensures
        r == name_lt(a@, b@),
{
    let n = a.unicode_len();
    let m = b.unicode_len();
    let mut i: usize = 0;
    proof {
        assert(a@.skip(0) =~= a@);
        assert(b@.skip(0) =~= b@);
    }
    while i < n && i < m
        invariant
            n == a@.len(),
            m == b@.len(),
            i <= n,
            i <= m,
            name_lt(a@, b@) == name_lt(a@.skip(i as int), b@.skip(i as int)),
        decreases n - i,
    {
        let x = a.get_char(i);
        let y = b.get_char(i);
        proof {
            assert(a@.skip(i as int)[0] == x);
            assert(b@.skip(i as int)[0] == y);
            assert(a@.skip(i as int).drop_first() =~= a@.skip(i + 1));
            assert(b@.skip(i as int).drop_first() =~= b@.skip(i + 1));
        }
        if x != y {
            return (x as u32) < (y as u32);
        }
        i = i + 1;
    }
    i == n && i < m
}

fn ascending_names<T>(entries: &Vec<(String, T)>) -> (r: bool)
    ensures
        r == strictly_ascending(entries@),
{
    let mut i: usize = 1;
    while i < entries.len()
        invariant
            1 <= i,
            entries@.len() == 0 || i <= entries@.len(),
            forall|a: int, b: int|
                0 <= a < b < i && b < entries@.len() ==> name_lt(
                    (#[trigger] entries@[a]).0@,
                    (#[trigger] entries@[b]).0@,
                ),
        decreases entries@.len() - i,
    {
        if !name_sorts_before(entries[i - 1].0.as_str(), entries[i].0.as_str()) {
            return false;
        }
        proof {
            assert forall|a: int, b: int|
                0 <= a < b < i + 1 && b < entries@.len() implies name_lt(
                    (#[trigger] entries@[a]).0@,
                    (#[trigger] entries@[b]).0@,
                ) by {
                if b == i && a < i - 1 {
                    lemma_name_lt_transitive(entries@[a].0@, entries@[i - 1].0@, entries@[b].0@);
                }
            }
        }
        i = i + 1;
    }
    true
}

/// The ratchet states of a whole tree in one revision: its packages and its files, each by
/// name, in order.
#[derive(Clone, Debug)]
pub struct Nixpkgs {
    pub packages: Vec<(String, Package)>,
    pub files: Vec<(String, File)>,
}

impl Nixpkgs {
    /// Packages and files are each keyed by name, in strictly ascending order of names.
    pub open spec fn wf(&self) -> bool {
        &&& strictly_ascending(self.packages@)
        &&& strictly_ascending(self.files@)
    }

    /// Whether the names of packages and of files each strictly ascend.
    pub fn is_well_formed(&self) -> (r: bool)
        ensures
            r == self.wf(),
    {
        ascending_names(&self.packages) && ascending_names(&self.files)
    }

    /// The problems of comparing this tree, as the previous revision, with `current`.
    pub open spec fn problems_against(&self, current: Nixpkgs) -> Seq<Problem> {
        packages_problems(self.packages@, current.packages@)
    }

    /// Compares a previous tree with the current one. Only what exists in the current tree is
    /// checked: a package that was removed cannot loosen a ratchet. The problems of each current
    /// package come in ascending order of package names.
    pub fn compare(from: &Nixpkgs, to: Nixpkgs) -> (r: Validation<()>)
        requires
            from.wf(),
            to.wf(),
        ensures
            r.wf(),
            r.problems() == from.problems_against(to),
            r is Success <==> r.problems().len() == 0,
    {
        let ghost current = to.packages@;
        let ghost previous = from.packages@;
        let Nixpkgs { packages, files } = to;
        let mut problems: Vec<Problem> = Vec::new();
        for entry in it: packages
            invariant
                it.seq() == current,
                previous == from.packages@,
                problems@ == packages_problems(previous, current.take(it.index() as int)),
        {
            let ghost i = it.index() as int;
            let (name, package) = entry;
            let previous_package = find_package(&from.packages, &name);
            let result = Package::compare(&name, previous_package, package);
            proof {
                assert(current.take(i + 1).drop_last() =~= current.take(i));
                assert(current.take(i + 1).last() == current[i]);
            }
            match result {
                Validation::Success(_) => {},
                Validation::Failure(mut ps) => {
                    problems.append(&mut ps);
                },
            }
        }
        proof {
            assert(current.take(current.len() as int) =~= current);
        }
        let package_results = if problems.len() == 0 {
            Validation::Success(())
        } else {
            Validation::Failure(problems)
        };
        package_results.and_(compare_files(&from.files, &files))
    }
}

/// The package named `name` among `entries`, if any.
fn find_package<'a>(entries: &'a Vec<(String, Package)>, name: &String) -> (r: Option<&'a Package>)
    ensures
        deref_option(r) == lookup(entries@, name@),
{
    let mut i: usize = 0;
    proof {
        assert(entries@.skip(0) =~= entries@);
    }
    while i < entries.len()
        invariant
            i <= entries.len(),
            lookup(entries@, name@) == lookup(entries@.skip(i as int), name@),
        decreases entries.len() - i,
    {
        proof {
            assert(entries@.skip(i as int).drop_first() =~= entries@.skip(i + 1));
            assert(entries@.skip(i as int)[0] == entries@[i as int]);
        }
        if entries[i].0 == *name {
            return Some(&entries[i].1);
        }
        i = i + 1;
    }
    None
}

/// The file named `name` among `entries`, if any.
fn find_file<'a>(entries: &'a Vec<(String, File)>, name: &String) -> Option<&'a File> {
    let mut i: usize = 0;
    while i < entries.len()
        invariant
            i <= entries.len(),
        decreases entries.len() - i,
    {
        if entries[i].0 == *name {
            return Some(&entries[i].1);
        }
        i = i + 1;
    }
    None
}

/// Compares every current file with the file of the same name before.
fn compare_files(previous: &Vec<(String, File)>, current: &Vec<(String, File)>) -> (r: Validation<()>)
    ensures
        r is Success,
{
    let mut results: Vec<Validation<()>> = Vec::new();
    for i in 0..current.len()
        invariant
            results@.len() == i,
            forall|j: int| 0 <= j < results@.len() ==> (#[trigger] results@[j]) is Success,
    {
        let (name, file) = &current[i];
        results.push(File::compare(name, find_file(previous, name), file));
    }
    sequence_(results)
}

proof fn lemma_lookup_without(entries: Seq<(String, Package)>, x: Seq<char>, name: Seq<char>)
    requires
        name != x,
    ensures
        lookup(without(entries, x), name) == lookup(entries, name),
    decreases entries.len(),
{
    if entries.len() > 0 {
        lemma_lookup_without(entries.drop_first(), x, name);
        if entries[0].0@ != x {
            let w = seq![entries[0]] + without(entries.drop_first(), x);
            assert(w[0] == entries[0]);
            assert(w.drop_first() =~= without(entries.drop_first(), x));
        }
    }
}

/// A package that the current tree no longer has plays no part in the comparison: comparing
/// against the previous tree gives exactly the problems of comparing against that tree with the
/// package removed. A deletion can never loosen a ratchet.
pub proof fn lemma_deletion_is_silent(
    previous: Seq<(String, Package)>,
    current: Seq<(String, Package)>,
    removed: Seq<char>,
)
    requires
        !has_name(current, removed),
    ensures
        packages_problems(previous, current) == packages_problems(without(previous, removed), current),
    decreases current.len(),
{
    if current.len() > 0 {
        let init = current.drop_last();
        assert(!has_name(init, removed)) by {
            if has_name(init, removed) {
                let i = choose|i: int| 0 <= i < init.len() && (#[trigger] init[i]).0@ == removed;
                assert(current[i] == init[i]);
            }
        }
        lemma_deletion_is_silent(previous, init, removed);
        assert(current[current.len() - 1] == current.last());
        lemma_lookup_without(previous, removed, current.last().0@);
    }
}

proof fn lemma_lookup_distinct(entries: Seq<(String, Package)>, i: int)
    requires
        names_distinct(entries),
        0 <= i < entries.len(),
    ensures
        lookup(entries, entries[i].0@) == Some(entries[i].1),
    decreases entries.len(),
{
    if i > 0 {
        let rest = entries.drop_first();
        assert(names_distinct(rest)) by {
            assert forall|a: int, b: int| 0 <= a < b < rest.len() implies (#[trigger] rest[a]).0@
                != (#[trigger] rest[b]).0@ by {
                assert(rest[a] == entries[a + 1]);
                assert(rest[b] == entries[b + 1]);
            }
        }
        assert(entries[0].0@ != entries[i].0@);
        assert(rest[i - 1] == entries[i]);
        lemma_lookup_distinct(rest, i - 1);
    }
}

proof fn lemma_packages_self_prefix(entries: Seq<(String, Package)>, k: int)
    requires
        names_distinct(entries),
        0 <= k <= entries.len(),
    ensures
        packages_problems(entries, entries.take(k)).len() == 0,
    decreases k,
{
    if k > 0 {
        let prefix = entries.take(k);
        assert(prefix.drop_last() =~= entries.take(k - 1));
        lemma_packages_self_prefix(entries, k - 1);
        assert(prefix.last() == entries[k - 1]);
        lemma_lookup_distinct(entries, k - 1);
    }
}

/// Comparing a tree with itself never finds a problem: a state never loosens into itself.
pub proof fn lemma_compare_self_is_clean(tree: Nixpkgs)
    requires
        tree.wf(),
    ensures
        tree.problems_against(tree).len() == 0,
{
    lemma_ascending_distinct(tree.packages@);
    lemma_packages_self_prefix(tree.packages@, tree.packages@.len() as int);
    assert(tree.packages@.take(tree.packages@.len() as int) =~= tree.packages@);
}

/// Whether some check of a package loosens from its previous states (absent for a new package).
pub open spec fn package_loosens(previous: Option<Package>, current: Package) -> bool {
    let previous_manual = match previous {
        Some(p) => Some(p.manual_definition),
        None => None,
    };
    let previous_by_name = match previous {
        Some(p) => Some(p.uses_by_name),
        None => None,
    };
    ratchet_rejects(previous_manual, current.manual_definition) || ratchet_rejects(
        previous_by_name,
        current.uses_by_name,
    )
}

proof fn lemma_item_problems_included(
    previous: Seq<(String, Package)>,
    current: Seq<(String, Package)>,
    i: int,
    x: Problem,
)
    requires
        0 <= i < current.len(),
        package_problems(current[i].0, lookup(previous, current[i].0@), current[i].1).contains(x),
    ensures
        packages_problems(previous, current).contains(x),
    decreases current.len(),
{
    let init = current.drop_last();
    let head = packages_problems(previous, init);
    let own = package_problems(current.last().0, lookup(previous, current.last().0@), current.last().1);
    let all = packages_problems(previous, current);
    assert(all == head + own);
    if i == current.len() - 1 {
        let k = choose|k: int| 0 <= k < own.len() && own[k] == x;
        assert(all[head.len() + k] == x);
    } else {
        assert(init[i] == current[i]);
        lemma_item_problems_included(previous, init, i, x);
        let k = choose|k: int| 0 <= k < head.len() && head[k] == x;
        assert(all[k] == x);
    }
}

/// A package whose check goes from tight to loose is reported for that check, whatever the other
/// checks and packages do: the problem that the check makes of its loose context is among the
/// problems of the comparison.
pub proof fn lemma_loosened_check_is_reported(
    previous: Seq<(String, Package)>,
    current: Seq<(String, Package)>,
    i: int,
)
    requires
        0 <= i < current.len(),
        lookup(previous, current[i].0@) is Some,
    ensures
        ({
            let before = lookup(previous, current[i].0@)->Some_0;
            let now = current[i].1;
            &&& (before.manual_definition is Tight && now.manual_definition is Loose)
                ==> packages_problems(previous, current).contains(
                ManualDefinition::problem(current[i].0, true, now.manual_definition->Loose_0),
            )
            &&& (before.uses_by_name is Tight && now.uses_by_name is Loose)
                ==> packages_problems(previous, current).contains(
                UsesByName::problem(current[i].0, true, now.uses_by_name->Loose_0),
            )
        }),
{
    let before = lookup(previous, current[i].0@)->Some_0;
    let now = current[i].1;
    let own = package_problems(current[i].0, lookup(previous, current[i].0@), now);
    let manual = ratchet_problems(
        current[i].0,
        Some(before.manual_definition),
        now.manual_definition,
        |n: String, e: bool, c: Problem| ManualDefinition::problem(n, e, c),
    );
    if before.manual_definition is Tight && now.manual_definition is Loose {
        let x = ManualDefinition::problem(current[i].0, true, now.manual_definition->Loose_0);
        assert(own[0] == x);
        lemma_item_problems_included(previous, current, i, x);
    }
    if before.uses_by_name is Tight && now.uses_by_name is Loose {
        let x = UsesByName::problem(current[i].0, true, now.uses_by_name->Loose_0);
        assert(own[manual.len() as int] == x);
        lemma_item_problems_included(previous, current, i, x);
    }
}

/// Existing looseness is grandfathered: when no check of any current package loosens (a loose
/// state that stays loose, with the same or another context, does not), the comparison finds no
/// problem.
pub proof fn lemma_grandfathered_is_clean(previous: Seq<(String, Package)>, current: Seq<(String, Package)>)
    requires
        forall|i: int|
            0 <= i < current.len() ==> !package_loosens(
                lookup(previous, (#[trigger] current[i]).0@),
                current[i].1,
            ),
    ensures
        packages_problems(previous, current).len() == 0,
    decreases current.len(),
{
    if current.len() > 0 {
        let init = current.drop_last();
        assert forall|i: int| 0 <= i < init.len() implies !package_loosens(
            lookup(previous, (#[trigger] init[i]).0@),
            init[i].1,
        ) by {
            assert(init[i] == current[i]);
        }
        lemma_grandfathered_is_clean(previous, init);
        assert(current.last() == current[current.len() - 1]);
    }
}

} // verus!
