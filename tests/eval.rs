use nixpkgs_vet::eval::{
    by_name, collect_packages, handle_non_by_name_attribute, needs_definition_site, AttributeInfo,
    AttributeVariant, ByNameAttribute, DefinitionSite, NonByNameAttribute,
};
use nixpkgs_vet::location::Location;
use nixpkgs_vet::problem::{ByNameNonDerivation, ByNameUndefinedAttribute, PackageNixIsNotFile, Problem};
use nixpkgs_vet::ratchet::{CallPackageArgumentInfo, Package, RatchetState};
use nixpkgs_vet::validation::Validation;

fn info(is_derivation: bool, same_scope: bool) -> AttributeInfo {
    AttributeInfo {
        location: Some(Location::new("/nix/pkgs/top-level/all-packages.nix".to_string(), 10, 3)),
        attribute_variant: AttributeVariant::AttributeSet {
            is_derivation,
            is_same_scope_call_package: same_scope,
        },
    }
}

fn site(path: Option<&str>) -> DefinitionSite {
    DefinitionSite {
        call_package: Some(CallPackageArgumentInfo {
            relative_path: path.map(|p| p.to_string()),
            empty_arg: true,
        }),
        file: "pkgs/top-level/all-packages.nix".to_string(),
    }
}

#[test]
fn by_name_attribute_states() {
    let name = "foo".to_string();
    let path = "pkgs/by-name".to_string();
    match by_name(&name, ByNameAttribute::Missing, &path) {
        Validation::Failure(ps) => assert_eq!(
            ps,
            vec![Problem::ByNameUndefinedAttribute(ByNameUndefinedAttribute {
                attribute_name: "foo".to_string(),
                by_name_path: "pkgs/by-name".to_string(),
            })]
        ),
        Validation::Success(_) => panic!("expected a failure"),
    }
    let non_derivation = vec![Problem::ByNameNonDerivation(ByNameNonDerivation {
        attribute_name: "foo".to_string(),
        by_name_path: "pkgs/by-name".to_string(),
    })];
    match by_name(&name, ByNameAttribute::Existing(info(false, true)), &path) {
        Validation::Failure(ps) => assert_eq!(ps, non_derivation),
        Validation::Success(_) => panic!("expected a failure"),
    }
    let not_a_set = AttributeInfo { location: None, attribute_variant: AttributeVariant::NonAttributeSet };
    match by_name(&name, ByNameAttribute::Existing(not_a_set), &path) {
        Validation::Failure(ps) => assert_eq!(ps, non_derivation),
        Validation::Success(_) => panic!("expected a failure"),
    }
    match by_name(&name, ByNameAttribute::Existing(info(true, false)), &path) {
        Validation::Success(p) => {
            assert!(matches!(p.manual_definition, RatchetState::Tight));
            assert!(matches!(p.uses_by_name, RatchetState::Tight));
        }
        Validation::Failure(_) => panic!("expected a success"),
    }
}

#[test]
fn non_by_name_attribute_states() {
    let path = "pkgs/by-name".to_string();
    let movable = NonByNameAttribute::EvalSuccess(info(true, true));
    assert!(needs_definition_site(&movable));
    let p = handle_non_by_name_attribute(&movable, Some(site(Some("pkgs/tools/foo"))), &path);
    assert!(matches!(p.manual_definition, RatchetState::Tight));
    match p.uses_by_name {
        RatchetState::Loose(c) => {
            assert_eq!(c.call_package.relative_path, Some("pkgs/tools/foo".to_string()));
            assert_eq!(c.file, "pkgs/top-level/all-packages.nix");
            assert_eq!(c.by_name_path, "pkgs/by-name");
        }
        _ => panic!("expected a loose state"),
    }
    let inside = handle_non_by_name_attribute(&movable, Some(site(Some("pkgs/by-name/fo/foo/package.nix"))), &path);
    assert!(matches!(inside.uses_by_name, RatchetState::NonApplicable));

    let other_scope = NonByNameAttribute::EvalSuccess(info(true, false));
    let p = handle_non_by_name_attribute(&other_scope, Some(site(Some("pkgs/tools/foo"))), &path);
    assert!(matches!(p.uses_by_name, RatchetState::NonApplicable));

    assert!(!needs_definition_site(&NonByNameAttribute::EvalFailure));
    let p = handle_non_by_name_attribute(&NonByNameAttribute::EvalFailure, None, &path);
    assert!(matches!(p.uses_by_name, RatchetState::NonApplicable));

    let not_syntactic = DefinitionSite { call_package: None, file: "x.nix".to_string() };
    let p = handle_non_by_name_attribute(&movable, Some(not_syntactic), &path);
    assert!(matches!(p.uses_by_name, RatchetState::NonApplicable));
}

#[test]
fn packages_are_collected_by_name() {
    let tight = || Package { manual_definition: RatchetState::Tight, uses_by_name: RatchetState::Tight };
    let results = vec![("a".to_string(), Validation::Success(tight())), ("b".to_string(), Validation::Success(tight()))];
    match collect_packages(results) {
        Validation::Success(v) => {
            assert_eq!(v.len(), 2);
            assert_eq!(v[0].0, "a");
            assert_eq!(v[1].0, "b");
        }
        Validation::Failure(_) => panic!("expected a success"),
    }
    let problem = Problem::PackageNixIsNotFile(PackageNixIsNotFile::new("b".to_string()));
    let results = vec![
        ("a".to_string(), Validation::Success(tight())),
        ("b".to_string(), Validation::Failure(vec![problem.clone()])),
    ];
    match collect_packages(results) {
        Validation::Failure(ps) => assert_eq!(ps, vec![problem]),
        Validation::Success(_) => panic!("expected a failure"),
    }
}
