//! Whether a package directory refers to anything outside of itself, through symlinks or Nix
//! path expressions.
use vstd::prelude::*;
use vstd::string::StrSliceExecFns;

use crate::problem::{
    NixFileContainsHomeRelativePath, NixFileContainsPathInterpolation,
    NixFileContainsPathOutsideDirectory, NixFileContainsSearchPath, NixFileContainsUnresolvablePath,
    PackageContainsSymlinkPointingOutside, PackageContainsUnresolvableSymlink, Problem,
};
use crate::validation::Validation;

verus! {

/// Where a Nix path expression of a package points.
#[derive(Clone, Debug, PartialEq, Eq)]
pub enum ResolvedPath {
    /// The path holds an interpolation, so its target is not known without evaluation.
    Interpolated,
    /// A search path such as `<nixpkgs>`.
    SearchPath,
    /// A path relative to the home directory.
    HomeRelative,
    /// A path outside of the package directory.
    Outside,
    /// A path that cannot be resolved, with the reason.
    Unresolvable(String),
    /// A path within the package directory.
    Within,
}

/// The kind of a path expression that its text alone decides: a search path starts with `<`, a
/// home-relative path with `~`, and an interpolated path holds `${`. Any other path is resolved
/// on disk.
pub open spec fn syntactic_kind(text: Seq<char>) -> Option<ResolvedPath> {
    if text.len() > 0 && text[0] == '<' {
        Some(ResolvedPath::SearchPath)
    } else if text.len() > 0 && text[0] == '~' {
        Some(ResolvedPath::HomeRelative)
    } else if exists|i: int| 0 <= i < text.len() - 1 && #[trigger] text[i] == '$' && text[i + 1] == '{' {
        Some(ResolvedPath::Interpolated)
    } else {
        None
    }
}

/// The kind of a path expression where its text decides it; `None` for a plain path.
pub fn classify_path_text(text: &str) -> (r: Option<ResolvedPath>)
    ensures
        r == syntactic_kind(text@),
{
    let n = text.unicode_len();
    if n > 0 && text.get_char(0) == '<' {
        return Some(ResolvedPath::SearchPath);
    }
    if n > 0 && text.get_char(0) == '~' {
        return Some(ResolvedPath::HomeRelative);
    }
    let mut i: usize = 0;
    while n > 0 && i < n - 1
        invariant
            n == text@.len(),
            n > 0 ==> text@[0] != '<' && text@[0] != '~',
            forall|j: int| 0 <= j < i && j < n - 1 ==> !(#[trigger] text@[j] == '$' && text@[j + 1] == '{'),
        decreases n - i,
    {
        if text.get_char(i) == '$' && text.get_char(i + 1) == '{' {
            return Some(ResolvedPath::Interpolated);
        }
        i = i + 1;
    }
    None
}

/// The problem of a path expression at `line` of the file `subpath` of a package, by where it
/// points; none for a path within the package.
pub open spec fn path_problem(
    resolved: ResolvedPath,
    relative_package_dir: String,
    subpath: String,
    line: usize,
    text: String,
) -> Seq<Problem> {
    match resolved {
        ResolvedPath::Interpolated => seq![
            Problem::NixFileContainsPathInterpolation(
                NixFileContainsPathInterpolation { relative_package_dir, subpath, line, text },
            ),
        ],
        ResolvedPath::SearchPath => seq![
            Problem::NixFileContainsSearchPath(
                NixFileContainsSearchPath { relative_package_dir, subpath, line, text },
            ),
        ],
        ResolvedPath::HomeRelative => seq![
            Problem::NixFileContainsHomeRelativePath(
                NixFileContainsHomeRelativePath { relative_package_dir, subpath, line, text },
            ),
        ],
        ResolvedPath::Outside => seq![
            Problem::NixFileContainsPathOutsideDirectory(
                NixFileContainsPathOutsideDirectory { relative_package_dir, subpath, line, text },
            ),
        ],
        ResolvedPath::Unresolvable(io_error) => seq![
            Problem::NixFileContainsUnresolvablePath(
                NixFileContainsUnresolvablePath { relative_package_dir, subpath, line, text, io_error },
            ),
        ],
        ResolvedPath::Within => Seq::empty(),
    }
}

/// Checks one path expression of a Nix file of a package.
pub fn check_path_expression(
    resolved: ResolvedPath,
    relative_package_dir: &String,
    subpath: &String,
    line: usize,
    text: String,
) -> (r: Validation<()>)
    ensures
        r.wf(),
        r.problems() == path_problem(resolved, *relative_package_dir, *subpath, line, text),
        r is Success <==> resolved is Within,
{
    let relative_package_dir = relative_package_dir.clone();
    let subpath = subpath.clone();
    let problem = match resolved {
        ResolvedPath::Interpolated => Problem::NixFileContainsPathInterpolation(
            NixFileContainsPathInterpolation { relative_package_dir, subpath, line, text },
        ),
        ResolvedPath::SearchPath => Problem::NixFileContainsSearchPath(
            NixFileContainsSearchPath { relative_package_dir, subpath, line, text },
        ),
        ResolvedPath::HomeRelative => Problem::NixFileContainsHomeRelativePath(
            NixFileContainsHomeRelativePath { relative_package_dir, subpath, line, text },
        ),
        ResolvedPath::Outside => Problem::NixFileContainsPathOutsideDirectory(
            NixFileContainsPathOutsideDirectory { relative_package_dir, subpath, line, text },
        ),
        ResolvedPath::Unresolvable(io_error) => Problem::NixFileContainsUnresolvablePath(
            NixFileContainsUnresolvablePath { relative_package_dir, subpath, line, text, io_error },
        ),
        ResolvedPath::Within => {
            return Validation::Success(());
        },
    };
    Validation::from_problem(problem)
}

/// Where a symlink of a package points.
#[derive(Clone, Debug, PartialEq, Eq)]
pub enum SymlinkTarget {
    Within,
    Outside,
    /// The symlink cannot be resolved, with the reason.
    Unresolvable(String),
}

/// Checks one symlink `subpath` of a package: it must resolve to within the package.
pub fn check_symlink(target: SymlinkTarget, relative_package_dir: &String, subpath: &String) -> (r: Validation<()>)
    ensures
        r.wf(),
        target is Within ==> r is Success,
        target is Outside ==> r.problems() == seq![
            Problem::PackageContainsSymlinkPointingOutside(
                PackageContainsSymlinkPointingOutside {
                    relative_package_dir: *relative_package_dir,
                    subpath: *subpath,
                },
            ),
        ],
        target matches SymlinkTarget::Unresolvable(e) ==> r.problems() == seq![
            Problem::PackageContainsUnresolvableSymlink(
                PackageContainsUnresolvableSymlink {
                    relative_package_dir: *relative_package_dir,
                    subpath: *subpath,
                    io_error: e,
                },
            ),
        ],
{
    match target {
        SymlinkTarget::Within => Validation::Success(()),
        SymlinkTarget::Outside => Validation::from_problem(
            Problem::PackageContainsSymlinkPointingOutside(
                PackageContainsSymlinkPointingOutside {
                    relative_package_dir: relative_package_dir.clone(),
                    subpath: subpath.clone(),
                },
            ),
        ),
        SymlinkTarget::Unresolvable(io_error) => Validation::from_problem(
            Problem::PackageContainsUnresolvableSymlink(
                PackageContainsUnresolvableSymlink {
                    relative_package_dir: relative_package_dir.clone(),
                    subpath: subpath.clone(),
                    io_error,
                },
            ),
        ),
    }
}

} // verus!
