//! What the evaluation of each attribute means for its ratchet states.
//!
//! The evaluation itself runs outside of this library; it reports each attribute as one of the
//! values below.
use vstd::prelude::*;

use crate::location::Location;
use crate::problem::{ByNameNonDerivation, ByNameUndefinedAttribute, NixEvalError, Problem};
use crate::ratchet::{CallPackageArgumentInfo, Package, RatchetState, UsesByNameContext};
use crate::structure::path_components;
use crate::validation::{sequence, Validation};

verus! {

/// The shape of an attribute's value.
#[derive(Clone, Debug, PartialEq, Eq)]
pub enum AttributeVariant {
    /// Not an attribute set, so certainly not a derivation.
    NonAttributeSet,
    AttributeSet {
        /// Whether the attribute is a derivation.
        is_derivation: bool,
        /// Whether the attribute was defined with `callPackage` of the same scope.
        is_same_scope_call_package: bool,
    },
}

/// What evaluation found about an existing attribute.
#[derive(Clone, Debug, PartialEq, Eq)]
pub struct AttributeInfo {
    /// Where the attribute is defined, if that can be found.
    pub location: Option<Location>,
    pub attribute_variant: AttributeVariant,
}

/// An attribute that should be defined from a by-name directory.
#[derive(Clone, Debug, PartialEq, Eq)]
pub enum ByNameAttribute {
    /// The attribute does not exist.
    Missing,
    Existing(AttributeInfo),
}

/// An attribute that is not defined from a by-name directory.
#[derive(Clone, Debug, PartialEq, Eq)]
pub enum NonByNameAttribute {
    /// The attribute does not evaluate.
    EvalFailure,
    EvalSuccess(AttributeInfo),
}

/// An attribute as evaluation reports it.
#[derive(Clone, Debug, PartialEq, Eq)]
pub enum Attribute {
    ByName(ByNameAttribute),
    NonByName(NonByNameAttribute),
}

/// What the definition of an attribute is, read from the file that holds it: the arguments of
/// its `callPackage`, if it is a syntactic one, and that file relative to the root of the tree.
#[derive(Clone, Debug, PartialEq, Eq)]
pub struct DefinitionSite {
    pub call_package: Option<CallPackageArgumentInfo>,
    pub file: String,
}

/// The ratchet states of an attribute defined from a by-name directory: it must exist and be a
/// derivation; it then needs no manual definition and uses the directory.
pub fn by_name(attribute_name: &String, by_name_attribute: ByNameAttribute, by_name_path: &String) -> (r: Validation<Package>)
    ensures
        r.wf(),
        by_name_attribute is Missing ==> r.problems() == seq![
            Problem::ByNameUndefinedAttribute(
                ByNameUndefinedAttribute { attribute_name: *attribute_name, by_name_path: *by_name_path },
            ),
        ],
        by_name_attribute matches ByNameAttribute::Existing(info) ==> match info.attribute_variant {
            AttributeVariant::AttributeSet { is_derivation: true, .. } => r == Validation::Success(
                Package { manual_definition: RatchetState::Tight, uses_by_name: RatchetState::Tight },
            ),
            _ => r.problems() == seq![
                Problem::ByNameNonDerivation(
                    ByNameNonDerivation { attribute_name: *attribute_name, by_name_path: *by_name_path },
                ),
            ],
        },
{
    let non_derivation = match by_name_attribute {
        ByNameAttribute::Missing => {
            return Validation::from_problem(
                Problem::ByNameUndefinedAttribute(
                    ByNameUndefinedAttribute {
                        attribute_name: attribute_name.clone(),
                        by_name_path: by_name_path.clone(),
                    },
                ),
            );
        },
        ByNameAttribute::Existing(info) => match info.attribute_variant {
            AttributeVariant::AttributeSet { is_derivation, .. } => !is_derivation,
            AttributeVariant::NonAttributeSet => true,
        },
    };
    if non_derivation {
        Validation::from_problem(
            Problem::ByNameNonDerivation(
                ByNameNonDerivation {
                    attribute_name: attribute_name.clone(),
                    by_name_path: by_name_path.clone(),
                },
            ),
        )
    } else {
        Validation::Success(
            Package { manual_definition: RatchetState::Tight, uses_by_name: RatchetState::Tight },
        )
    }
}

/// Whether an attribute outside of the by-name directories could be moved into one, as far as
/// evaluation tells: it evaluates to a derivation whose definition site is known. Only then is
/// its definition site worth reading.
pub open spec fn could_move(attribute: NonByNameAttribute) -> bool {
    attribute matches NonByNameAttribute::EvalSuccess(info) && info.location is Some
        && info.attribute_variant matches AttributeVariant::AttributeSet { is_derivation: true, .. }
}

pub fn needs_definition_site(attribute: &NonByNameAttribute) -> (r: bool)
    ensures
        r == could_move(*attribute),
{
    match attribute {
        NonByNameAttribute::EvalSuccess(info) => {
            info.location.is_some() && match info.attribute_variant {
                AttributeVariant::AttributeSet { is_derivation, .. } => is_derivation,
                AttributeVariant::NonAttributeSet => false,
            }
        },
        NonByNameAttribute::EvalFailure => false,
    }
}

/// Whether the relative path `path` lies within the directory `dir`: the components of `dir`
/// begin those of `path`.
pub open spec fn relative_path_starts_with(path: Seq<char>, dir: Seq<char>) -> bool {
    let p = path_components(path);
    let d = path_components(dir);
    d.len() <= p.len() && p.take(d.len() as int) == d
}

/// Relies on relative_path::RelativePath::starts_with, which holds when the components of `dir`
/// begin those of `path`.
#[verifier::external_body]
fn path_starts_with(path: &str, dir: &str) -> (r: bool)
    ensures
        r == relative_path_starts_with(path@, dir@),
{
    relative_path::RelativePath::new(path).starts_with(dir)
}

/// Whether the definition of an attribute that could move is a `callPackage` of the same scope
/// on a file outside of the by-name directory `by_name_path`: only such a definition could be
/// replaced by the by-name directory.
pub open spec fn is_movable_definition(
    attribute: NonByNameAttribute,
    site: DefinitionSite,
    by_name_path: Seq<char>,
) -> bool {
    &&& could_move(attribute)
    &&& attribute->EvalSuccess_0.attribute_variant->is_same_scope_call_package
    &&& site.call_package matches Some(cp) && !(cp.relative_path matches Some(p)
        && relative_path_starts_with(p@, by_name_path))
}

/// The ratchet states of an attribute that is not defined from a by-name directory. It keeps a
/// manual definition, which is then needed. It is loose for the use of by-name directories when
/// it is a `callPackage` of the same scope on a file outside of `by_name_path`, which could move
/// into it; otherwise that check does not apply.
pub fn handle_non_by_name_attribute(
    attribute: &NonByNameAttribute,
    site: Option<DefinitionSite>,
    by_name_path: &String,
) -> (r: Package)
    ensures
        r.manual_definition is Tight,
        site matches Some(s) ==> (is_movable_definition(*attribute, s, by_name_path@) ==> r.uses_by_name
            == RatchetState::Loose(
            UsesByNameContext {
                call_package: s.call_package->Some_0,
                file: s.file,
                by_name_path: *by_name_path,
            },
        )),
        !(site matches Some(s) && is_movable_definition(*attribute, s, by_name_path@))
            ==> r.uses_by_name is NonApplicable,
{
    let same_scope = match attribute {
        NonByNameAttribute::EvalSuccess(info) => match info.attribute_variant {
            AttributeVariant::AttributeSet { is_same_scope_call_package, .. } => is_same_scope_call_package,
            AttributeVariant::NonAttributeSet => false,
        },
        NonByNameAttribute::EvalFailure => false,
    };
    let uses_by_name = if !needs_definition_site(attribute) || !same_scope {
        RatchetState::NonApplicable
    } else {
        match site {
            Some(DefinitionSite { call_package: Some(call_package), file }) => {
                let inside = match &call_package.relative_path {
                    Some(path) => path_starts_with(path.as_str(), by_name_path.as_str()),
                    None => false,
                };
                if inside {
                    RatchetState::NonApplicable
                } else {
                    RatchetState::Loose(
                        UsesByNameContext { call_package, file, by_name_path: by_name_path.clone() },
                    )
                }
            },
            _ => RatchetState::NonApplicable,
        }
    };
    Package { manual_definition: RatchetState::Tight, uses_by_name }
}

/// The outcomes of the attributes, without their names.
pub open spec fn outcomes(results: Seq<(String, Validation<Package>)>) -> Seq<Validation<Package>> {
    results.map_values(|e: (String, Validation<Package>)| e.1)
}

/// The packages of all attributes, by name, when every attribute checks out; otherwise the
/// problems of every attribute, in order.
pub fn collect_packages(results: Vec<(String, Validation<Package>)>) -> (r: Validation<
    Vec<(String, Package)>,
>)
    ensures
        r is Success <==> crate::validation::all_succeed(outcomes(results@)),
        r.problems() == crate::validation::all_problems(outcomes(results@)),
        crate::validation::all_wf(outcomes(results@)) ==> r.wf(),
        r matches Validation::Success(v) ==> v@.len() == results@.len() && forall|i: int|
            0 <= i < v@.len() ==> (#[trigger] v@[i]).0 == results@[i].0 && v@[i].1
                == results@[i].1->Success_0,
{
    let ghost entries = results@;
    let mut named: Vec<Validation<(String, Package)>> = Vec::new();
    for entry in it: results
        invariant
            it.seq() == entries,
            named@.len() == it.index(),
            forall|i: int| 0 <= i < it.index() ==> (#[trigger] named@[i]).problems() == entries[i].1.problems(),
            forall|i: int| 0 <= i < it.index() ==> ((#[trigger] named@[i]) is Success <==> entries[i].1 is Success),
            forall|i: int| 0 <= i < it.index() ==> ((#[trigger] named@[i]) matches Validation::Success(p) ==> p.0
                == entries[i].0 && p.1 == entries[i].1->Success_0),
    {
        let (name, outcome) = entry;
        let item = match outcome {
            Validation::Success(package) => Validation::Success((name, package)),
            Validation::Failure(ps) => Validation::Failure(ps),
        };
        named.push(item);
    }
    proof {
        lemma_same_outcomes(named@, entries);
    }
    let ghost named_view = named@;
    let r = sequence(named);
    proof {
        if r is Success {
            let v = r->Success_0;
            assert forall|i: int| 0 <= i < v@.len() implies (#[trigger] v@[i]).0 == entries[i].0
                && v@[i].1 == entries[i].1->Success_0 by {
                assert(v@[i] == named_view[i]->Success_0);
            }
        }
    }
    r
}

proof fn lemma_same_outcomes(named: Seq<Validation<(String, Package)>>, entries: Seq<(String, Validation<Package>)>)
    requires
        named.len() == entries.len(),
        forall|i: int| 0 <= i < named.len() ==> (#[trigger] named[i]).problems() == entries[i].1.problems(),
        forall|i: int| 0 <= i < named.len() ==> ((#[trigger] named[i]) is Success <==> entries[i].1 is Success),
    ensures
        crate::validation::all_problems(named) == crate::validation::all_problems(outcomes(entries)),
        crate::validation::all_succeed(named) == crate::validation::all_succeed(outcomes(entries)),
        crate::validation::all_wf(outcomes(entries)) ==> crate::validation::all_wf(named),
    decreases named.len(),
{
    let o = outcomes(entries);
    assert forall|i: int| 0 <= i < named.len() implies (#[trigger] o[i]) == entries[i].1 by {}
    if named.len() > 0 {
        let n = named.len() - 1;
        assert(outcomes(entries.drop_last()) =~= o.drop_last());
        lemma_same_outcomes(named.drop_last(), entries.drop_last());
        assert(named.last() == named[n]);
        assert(o.last() == o[n]);
    }
    if crate::validation::all_succeed(named) {
        assert forall|i: int| 0 <= i < o.len() implies (#[trigger] o[i]) is Success by {
            assert(named[i] is Success);
        }
    }
    if crate::validation::all_succeed(o) {
        assert forall|i: int| 0 <= i < named.len() implies (#[trigger] named[i]) is Success by {
            assert(o[i] is Success);
        }
    }
    if crate::validation::all_wf(o) {
        assert forall|i: int| 0 <= i < named.len() implies (#[trigger] named[i]).wf() by {
            assert(o[i].wf());
        }
    }
}

/// The outcome of an evaluation that failed as a whole: one problem that carries its error
/// output, for the by-name directory `by_name_path`.
pub fn evaluation_failed(stderr: String, by_name_path: &String) -> (r: Validation<Vec<(String, Package)>>)
    ensures
        r.wf(),
        r.problems() == seq![
            Problem::NixEvalError(NixEvalError { stderr, by_name_path: *by_name_path }),
        ],
{
    Validation::from_problem(
        Problem::NixEvalError(NixEvalError { stderr, by_name_path: by_name_path.clone() }),
    )
}

} // verus!
