//! The problems that checks report.
//!
//! A problem is plain data: the names, paths and lines that are needed to describe it to a
//! user. Paths are relative to the root of the checked tree, so that reports do not depend on
//! where that tree is checked out.
use vstd::prelude::*;

use crate::location::Location;

verus! {

/// An attribute that should be defined automatically from a by-name directory is not defined.
#[derive(Clone, Debug, PartialEq, Eq)]
pub struct ByNameUndefinedAttribute {
    pub attribute_name: String,
    pub by_name_path: String,
}

/// An attribute defined from a by-name directory is not a derivation.
#[derive(Clone, Debug, PartialEq, Eq)]
pub struct ByNameNonDerivation {
    pub attribute_name: String,
    pub by_name_path: String,
}

/// An attribute is defined with the internal `callPackage` variant of by-name directories.
#[derive(Clone, Debug, PartialEq, Eq)]
pub struct ByNameInternalCallPackageUsed {
    pub attribute_name: String,
}

impl ByNameInternalCallPackageUsed {
    pub fn new(attribute_name: String) -> (r: Self)
        ensures
            r.attribute_name == attribute_name,
    {
        ByNameInternalCallPackageUsed { attribute_name }
    }
}

/// The definition site of an attribute cannot be found.
#[derive(Clone, Debug, PartialEq, Eq)]
pub struct ByNameCannotDetermineAttributeLocation {
    pub attribute_name: String,
}

impl ByNameCannotDetermineAttributeLocation {
    pub fn new(attribute_name: String) -> (r: Self)
        ensures
            r.attribute_name == attribute_name,
    {
        ByNameCannotDetermineAttributeLocation { attribute_name }
    }
}

/// A manual definition of a by-name package is not a syntactic `callPackage`.
#[derive(Clone, Debug, PartialEq, Eq)]
pub struct ByNameOverrideOfNonSyntacticCallPackage {
    pub package_name: String,
    pub location: Location,
    pub definition: String,
}

/// A manual definition of a by-name package uses a `callPackage` of another scope.
#[derive(Clone, Debug, PartialEq, Eq)]
pub struct ByNameOverrideOfNonTopLevelPackage {
    pub package_name: String,
    pub location: Location,
    pub definition: String,
    pub by_name_path: String,
}

/// A manual definition of a by-name package calls another file than its `package.nix`.
#[derive(Clone, Debug, PartialEq, Eq)]
pub struct ByNameOverrideContainsWrongCallPackagePath {
    pub package_name: String,
    pub actual_path: String,
    pub location: Location,
    pub by_name_path: String,
}

/// A manual definition of a by-name package passes an empty second argument.
#[derive(Clone, Debug, PartialEq, Eq)]
pub struct ByNameOverrideContainsEmptyArgument {
    pub package_name: String,
    pub location: Location,
    pub definition: String,
    pub by_name_path: String,
}

/// An entry of a by-name directory is not a directory.
#[derive(Clone, Debug, PartialEq, Eq)]
pub struct ByNameShardIsNotDirectory {
    pub shard_name: String,
    pub by_name_path: String,
}

/// A shard directory has a name that is not allowed.
#[derive(Clone, Debug, PartialEq, Eq)]
pub struct ByNameShardIsInvalid {
    pub shard_name: String,
}

impl ByNameShardIsInvalid {
    pub fn new(shard_name: String) -> (r: Self)
        ensures
            r.shard_name == shard_name,
    {
        ByNameShardIsInvalid { shard_name }
    }
}

/// Two package directories of a shard differ only in case.
#[derive(Clone, Debug, PartialEq, Eq)]
pub struct ByNameShardIsCaseSensitiveDuplicate {
    pub shard_name: String,
    pub first: String,
    pub second: String,
    pub by_name_path: String,
}

/// Evaluating the tree failed.
#[derive(Clone, Debug, PartialEq, Eq)]
pub struct NixEvalError {
    pub stderr: String,
    pub by_name_path: String,
}

/// A file of a package holds a path expression with an interpolation.
#[derive(Clone, Debug, PartialEq, Eq)]
pub struct NixFileContainsPathInterpolation {
    pub relative_package_dir: String,
    pub subpath: String,
    pub line: usize,
    pub text: String,
}

/// A file of a package holds a search path expression such as `<nixpkgs>`.
#[derive(Clone, Debug, PartialEq, Eq)]
pub struct NixFileContainsSearchPath {
    pub relative_package_dir: String,
    pub subpath: String,
    pub line: usize,
    pub text: String,
}

/// A file of a package holds a path expression that leaves the package directory.
#[derive(Clone, Debug, PartialEq, Eq)]
pub struct NixFileContainsPathOutsideDirectory {
    pub relative_package_dir: String,
    pub subpath: String,
    pub line: usize,
    pub text: String,
}

/// A file of a package holds a path expression that cannot be resolved.
#[derive(Clone, Debug, PartialEq, Eq)]
pub struct NixFileContainsUnresolvablePath {
    pub relative_package_dir: String,
    pub subpath: String,
    pub line: usize,
    pub text: String,
    pub io_error: String,
}

/// A package directory holds a symlink that points outside of it.
#[derive(Clone, Debug, PartialEq, Eq)]
pub struct PackageContainsSymlinkPointingOutside {
    pub relative_package_dir: String,
    pub subpath: String,
}

/// A package directory holds a symlink that cannot be resolved.
#[derive(Clone, Debug, PartialEq, Eq)]
pub struct PackageContainsUnresolvableSymlink {
    pub relative_package_dir: String,
    pub subpath: String,
    pub io_error: String,
}

/// A file of a package holds a path that is not a valid relative path.
#[derive(Clone, Debug, PartialEq, Eq)]
pub struct PackageContainsInvalidReference {
    pub relative_package_dir: String,
    pub subpath: String,
    pub line: usize,
    pub text: String,
    pub err: String,
}

/// A file of a package holds a path relative to the home directory.
#[derive(Clone, Debug, PartialEq, Eq)]
pub struct NixFileContainsHomeRelativePath {
    pub relative_package_dir: String,
    pub subpath: String,
    pub line: usize,
    pub text: String,
}

/// An entry of a shard is not a directory.
#[derive(Clone, Debug, PartialEq, Eq)]
pub struct PackageDirectoryIsNotDirectory {
    pub package_name: String,
    pub by_name_path: String,
}

/// A package directory has a name that is not allowed.
#[derive(Clone, Debug, PartialEq, Eq)]
pub struct InvalidPackageDirectoryName {
    pub package_name: String,
    pub relative_package_dir: String,
}

/// A package directory stands in the wrong shard.
#[derive(Clone, Debug, PartialEq, Eq)]
pub struct PackageInWrongShard {
    pub package_name: String,
    pub relative_package_dir: String,
    pub by_name_path: String,
}

/// A package directory has no `package.nix`.
#[derive(Clone, Debug, PartialEq, Eq)]
pub struct PackageNixMissing {
    pub package_name: String,
    pub by_name_path: String,
}

/// The `package.nix` of a package directory is not a file.
#[derive(Clone, Debug, PartialEq, Eq)]
pub struct PackageNixIsNotFile {
    pub package_name: String,
}

impl PackageNixIsNotFile {
    pub fn new(package_name: String) -> (r: Self)
        ensures
            r.package_name == package_name,
    {
        PackageNixIsNotFile { package_name }
    }
}

/// A Nix file is executable but has no shebang line.
#[derive(Clone, Debug, PartialEq, Eq)]
pub struct NixFileIsExecutableWithoutShebang {
    pub relative_path: String,
}

/// A Nix file has a shebang line but is not executable.
#[derive(Clone, Debug, PartialEq, Eq)]
pub struct NixFileHasShebangButNotExecutable {
    pub relative_path: String,
}

/// A package that was defined in a by-name directory is now defined manually with an empty
/// second `callPackage` argument.
#[derive(Clone, Debug, PartialEq, Eq)]
pub struct TopLevelPackageMovedOutOfByName {
    pub package_name: String,
    pub call_package_path: Option<String>,
    pub file: String,
    pub by_name_path: String,
}

/// A package that was defined in a by-name directory is now defined manually with custom
/// arguments.
#[derive(Clone, Debug, PartialEq, Eq)]
pub struct TopLevelPackageMovedOutOfByNameWithCustomArguments {
    pub package_name: String,
    pub call_package_path: Option<String>,
    pub file: String,
    pub by_name_path: String,
}

/// A new package is defined manually with an empty second `callPackage` argument.
#[derive(Clone, Debug, PartialEq, Eq)]
pub struct NewTopLevelPackageShouldBeByName {
    pub attr_path: String,
    pub call_package_path: Option<String>,
    pub file: String,
    pub by_name_path: String,
}

/// A new package is defined manually with custom arguments.
#[derive(Clone, Debug, PartialEq, Eq)]
pub struct NewTopLevelPackageShouldBeByNameWithCustomArgument {
    pub package_name: String,
    pub call_package_path: Option<String>,
    pub file: String,
    pub by_name_path: String,
}

/// A file uses a top-level `with`, which may shadow variables.
#[derive(Clone, Debug, PartialEq, Eq)]
pub struct TopLevelWithMayShadowVariablesAndBreakStaticChecks {
    pub file: String,
    pub node: String,
}

/// A Nix file holds nothing but a string.
#[derive(Clone, Debug, PartialEq, Eq)]
pub struct FileIsAString {
    pub file: String,
}

/// Any problem that a check can report.
#[derive(Clone, Debug, PartialEq, Eq)]
pub enum Problem {
    ByNameUndefinedAttribute(ByNameUndefinedAttribute),
    ByNameNonDerivation(ByNameNonDerivation),
    ByNameInternalCallPackageUsed(ByNameInternalCallPackageUsed),
    ByNameCannotDetermineAttributeLocation(ByNameCannotDetermineAttributeLocation),
    ByNameOverrideOfNonSyntacticCallPackage(ByNameOverrideOfNonSyntacticCallPackage),
    ByNameOverrideOfNonTopLevelPackage(ByNameOverrideOfNonTopLevelPackage),
    ByNameOverrideContainsWrongCallPackagePath(ByNameOverrideContainsWrongCallPackagePath),
    ByNameOverrideContainsEmptyArgument(ByNameOverrideContainsEmptyArgument),
    ByNameShardIsNotDirectory(ByNameShardIsNotDirectory),
    ByNameShardIsInvalid(ByNameShardIsInvalid),
    ByNameShardIsCaseSensitiveDuplicate(ByNameShardIsCaseSensitiveDuplicate),
    NixEvalError(NixEvalError),
    NixFileContainsPathInterpolation(NixFileContainsPathInterpolation),
    NixFileContainsSearchPath(NixFileContainsSearchPath),
    NixFileContainsPathOutsideDirectory(NixFileContainsPathOutsideDirectory),
    NixFileContainsUnresolvablePath(NixFileContainsUnresolvablePath),
    PackageContainsSymlinkPointingOutside(PackageContainsSymlinkPointingOutside),
    PackageContainsUnresolvableSymlink(PackageContainsUnresolvableSymlink),
    PackageContainsInvalidReference(PackageContainsInvalidReference),
    NixFileContainsHomeRelativePath(NixFileContainsHomeRelativePath),
    PackageDirectoryIsNotDirectory(PackageDirectoryIsNotDirectory),
    InvalidPackageDirectoryName(InvalidPackageDirectoryName),
    PackageInWrongShard(PackageInWrongShard),
    PackageNixMissing(PackageNixMissing),
    PackageNixIsNotFile(PackageNixIsNotFile),
    NixFileIsExecutableWithoutShebang(NixFileIsExecutableWithoutShebang),
    NixFileHasShebangButNotExecutable(NixFileHasShebangButNotExecutable),
    TopLevelPackageMovedOutOfByName(TopLevelPackageMovedOutOfByName),
    TopLevelPackageMovedOutOfByNameWithCustomArguments(
        TopLevelPackageMovedOutOfByNameWithCustomArguments,
    ),
    NewTopLevelPackageShouldBeByName(NewTopLevelPackageShouldBeByName),
    NewTopLevelPackageShouldBeByNameWithCustomArgument(
        NewTopLevelPackageShouldBeByNameWithCustomArgument,
    ),
    TopLevelWithMayShadowVariablesAndBreakStaticChecks(
        TopLevelWithMayShadowVariablesAndBreakStaticChecks,
    ),
    FileIsAString(FileIsAString),
}

} // verus!
