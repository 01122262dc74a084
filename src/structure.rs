//! The layout of by-name directories: shards, package directories and their `package.nix`, and
//! which by-name directory an attribute belongs to.
use vstd::prelude::*;
use vstd::string::StrSliceExecFns;
use vstd::string::StringExecFns;

use crate::problem::{
    ByNameShardIsCaseSensitiveDuplicate, ByNameShardIsInvalid, ByNameShardIsNotDirectory,
    InvalidPackageDirectoryName, PackageDirectoryIsNotDirectory, PackageInWrongShard,
    PackageNixIsNotFile, PackageNixMissing, Problem,
};
use crate::validation::{all_problems, sequence, Validation};

verus! {

/// The file that defines a package in its directory.
pub const PACKAGE_NIX_FILENAME: &'static str = "package.nix";

/// The pattern of the by-name directory that takes every attribute without a dot; another
/// directory whose pattern also matches an attribute is preferred to it.
pub const WILDCARD_ATTR_PATH_REGEX: &'static str = "^[^\\.]*$";

/// A by-name directory and the attributes that it defines.
#[derive(Clone, Debug)]
pub struct ByNameDir {
    pub id: String,
    /// The directory, relative to the root of the tree.
    pub path: String,
    /// A regular expression that the attribute paths of its packages match.
    pub attr_path_regex: String,
    /// The attribute set that its packages are defined in; empty for the top level.
    pub unversioned_attr_prefix: String,
    pub all_packages_path: String,
    pub aliases_path: Option<String>,
}

/// The by-name directories of a tree.
#[derive(Clone, Debug)]
pub struct Config {
    pub by_name_dirs: Vec<ByNameDir>,
}

/// A package found in a by-name directory.
#[derive(Clone, Debug, PartialEq, Eq)]
pub struct ByNamePackage {
    /// The full attribute path, with the prefix of its by-name directory.
    pub attr_path: String,
    /// The last part of the attribute path, which is what is sharded.
    pub package_name: String,
    pub by_name_dir_id: String,
}

/// `other` joined onto the relative path `base`, with one separator between them.
pub open spec fn path_join(base: Seq<char>, other: Seq<char>) -> Seq<char> {
    let rest = if other.len() > 0 && other[0] == '/' {
        other.drop_first()
    } else {
        other
    };
    if base.len() > 0 && base.last() != '/' {
        base + seq!['/'] + rest
    } else {
        base + rest
    }
}

/// Relies on relative_path::RelativePath::join: it appends `other` to `base`, dropping a
/// leading separator of `other` and adding one after `base` where it is missing.
#[verifier::external_body]
fn join_path(base: &str, other: &str) -> (r: String)
    ensures
        r@ == path_join(base@, other@),
{
    relative_path::RelativePath::new(base).join(other).into_string()
}

/// The lowercase form of a string, by the Unicode rules of std.
pub uninterp spec fn lower_of(s: Seq<char>) -> Seq<char>;

/// Relies on str::to_lowercase: the result depends on the characters of `s` alone.
#[verifier::external_body]
fn lowercase(s: &str) -> (r: String)
    ensures
        r@ == lower_of(s@),
{
    s.to_lowercase()
}

/// The first `n` characters of `s`, or all of them when there are fewer.
pub open spec fn first_chars(s: Seq<char>, n: nat) -> Seq<char> {
    if s.len() <= n {
        s
    } else {
        s.take(n as int)
    }
}

/// The shard of a package: the first two characters of its lowercase name.
pub open spec fn shard_of(package_name: Seq<char>) -> Seq<char> {
    first_chars(lower_of(package_name), 2)
}

/// The directory of a package in the by-name directory `by_name_path`.
pub open spec fn package_dir_of(package_name: Seq<char>, by_name_path: Seq<char>) -> Seq<char> {
    path_join(path_join(by_name_path, shard_of(package_name)), package_name)
}

pub fn shard_for_package(package_name: &str) -> (r: String)
    ensures
        r@ == shard_of(package_name@),
{
    let lower = lowercase(package_name);
    let n = lower.as_str().unicode_len();
    let take: usize = if n < 2 {
        n
    } else {
        2
    };
    let shard = lower.as_str().substring_char(0, take);
    proof {
        if n <= 2 {
            assert(lower@.subrange(0, take as int) =~= lower@);
        }
    }
    shard.to_owned()
}

pub fn relative_dir_for_shard(shard_name: &str, by_name_dir_path: &str) -> (r: String)
    ensures
        r@ == path_join(by_name_dir_path@, shard_name@),
{
    join_path(by_name_dir_path, shard_name)
}

pub fn relative_dir_for_package(package_name: &str, by_name_dir_path: &str) -> (r: String)
    ensures
        r@ == package_dir_of(package_name@, by_name_dir_path@),
{
    let shard = shard_for_package(package_name);
    let shard_dir = relative_dir_for_shard(shard.as_str(), by_name_dir_path);
    join_path(shard_dir.as_str(), package_name)
}

pub fn relative_file_for_package(package_name: &str, by_name_dir_path: &str) -> (r: String)
    ensures
        r@ == path_join(package_dir_of(package_name@, by_name_dir_path@), PACKAGE_NIX_FILENAME@),
{
    let dir = relative_dir_for_package(package_name, by_name_dir_path);
    join_path(dir.as_str(), PACKAGE_NIX_FILENAME)
}

/// Whether `pattern` compiles as a regular expression of the `regex` crate: it is valid, and
/// within the crate's default size limit.
pub uninterp spec fn regex_compiles(pattern: Seq<char>) -> bool;

/// Whether the regular expression `pattern` matches somewhere in `haystack`.
pub uninterp spec fn regex_matches(pattern: Seq<char>, haystack: Seq<char>) -> bool;

/// Relies on regex::Regex::new, which fails on a pattern that is not valid and on one whose
/// compiled form exceeds the crate's default size limit (`regex_compiles` is false for both), and on
/// regex::Regex::is_match, whose answer depends on the pattern and the haystack alone.
#[verifier::external_body]
fn regex_is_match(pattern: &str, haystack: &str) -> (r: Option<bool>)
    ensures
        r is Some <==> regex_compiles(pattern@),
        r matches Some(m) ==> m == regex_matches(pattern@, haystack@),
{
    match regex::Regex::new(pattern) {
        Ok(re) => Some(re.is_match(haystack)),
        Err(_) => None,
    }
}

/// Why no by-name directory can be chosen for an attribute.
#[derive(Clone, Debug, PartialEq, Eq)]
pub enum ByNameDirLookupError {
    /// The pattern of the by-name directory at this index does not compile.
    InvalidPattern(usize),
    /// More than one by-name directory claims the attribute, and no wildcard gives way.
    Overlapping,
}

/// The indices of the directories among `dirs` whose pattern matches `attr_name`, in order.
pub open spec fn matching_dirs(dirs: Seq<ByNameDir>, attr_name: Seq<char>) -> Seq<int>
    decreases dirs.len(),
{
    if dirs.len() == 0 {
        Seq::empty()
    } else {
        let init = matching_dirs(dirs.drop_last(), attr_name);
        if regex_matches(dirs.last().attr_path_regex@, attr_name) {
            init.push(dirs.len() - 1)
        } else {
            init
        }
    }
}

/// Whether a directory takes every attribute without a dot.
pub open spec fn is_wildcard(dir: ByNameDir) -> bool {
    dir.attr_path_regex@ == WILDCARD_ATTR_PATH_REGEX@
}

/// The first directory among `dirs` whose pattern is not valid, if any.
pub open spec fn first_invalid_pattern(dirs: Seq<ByNameDir>, i: int) -> bool {
    &&& 0 <= i < dirs.len()
    &&& !regex_compiles(dirs[i].attr_path_regex@)
    &&& forall|j: int| 0 <= j < i ==> regex_compiles(#[trigger] dirs[j].attr_path_regex@)
}

/// The by-name directory that an attribute belongs in. The one directory whose pattern matches
/// it; of two, the one that is not the wildcard; none when no pattern matches. Any other case
/// is an overlap. A pattern that is not valid is reported first.
pub fn expected_by_name_dir_for_package<'a>(attr_name: &str, config: &'a Config) -> (r: Result<
    Option<&'a ByNameDir>,
    ByNameDirLookupError,
>)
    ensures
        r matches Err(ByNameDirLookupError::InvalidPattern(i)) ==> first_invalid_pattern(
            config.by_name_dirs@,
            i as int,
        ),
        (exists|j: int|
            0 <= j < config.by_name_dirs@.len() && !regex_compiles(
                #[trigger] config.by_name_dirs@[j].attr_path_regex@,
            )) ==> r matches Err(ByNameDirLookupError::InvalidPattern(_)),
        (forall|j: int|
            0 <= j < config.by_name_dirs@.len() ==> regex_compiles(
                #[trigger] config.by_name_dirs@[j].attr_path_regex@,
            )) ==> {
            let dirs = config.by_name_dirs@;
            let m = matching_dirs(dirs, attr_name@);
            &&& m.len() == 0 ==> r == Ok::<Option<&ByNameDir>, ByNameDirLookupError>(None)
            &&& m.len() == 1 ==> r == Ok::<Option<&ByNameDir>, ByNameDirLookupError>(
                Some(&dirs[m[0]]),
            )
            &&& m.len() == 2 ==> r == if is_wildcard(dirs[m[1]]) {
                Ok::<Option<&ByNameDir>, ByNameDirLookupError>(Some(&dirs[m[0]]))
            } else if is_wildcard(dirs[m[0]]) {
                Ok::<Option<&ByNameDir>, ByNameDirLookupError>(Some(&dirs[m[1]]))
            } else {
                Err::<Option<&ByNameDir>, ByNameDirLookupError>(ByNameDirLookupError::Overlapping)
            }
            &&& m.len() > 2 ==> r == Err::<Option<&ByNameDir>, ByNameDirLookupError>(
                ByNameDirLookupError::Overlapping,
            )
        },
{
    let dirs = &config.by_name_dirs;
    let mut matching: Vec<usize> = Vec::new();
    let mut i: usize = 0;
    while i < dirs.len()
        invariant
            dirs@ == config.by_name_dirs@,
            i <= dirs@.len(),
            forall|j: int| 0 <= j < i ==> regex_compiles(#[trigger] dirs@[j].attr_path_regex@),
            matching@.map_values(|k: usize| k as int) == matching_dirs(dirs@.take(i as int), attr_name@),
            forall|k: int| 0 <= k < matching@.len() ==> matching@[k] < i,
        decreases dirs@.len() - i,
    {
        proof {
            assert(dirs@.take(i + 1).drop_last() =~= dirs@.take(i as int));
            assert(dirs@.take(i + 1).last() == dirs@[i as int]);
        }
        let pattern = dirs[i].attr_path_regex.as_str();
        let found = regex_is_match(pattern, attr_name);
        if found.is_none() {
            proof {
                assert(first_invalid_pattern(config.by_name_dirs@, i as int));
            }
            return Err(ByNameDirLookupError::InvalidPattern(i));
        }
        if found == Some(true) {
            let ghost before = matching@;
            matching.push(i);
            proof {
                assert(matching@.map_values(|k: usize| k as int) =~= before.map_values(
                    |k: usize| k as int,
                ).push(i as int));
            }
        }
        i = i + 1;
    }
    proof {
        assert(dirs@.take(dirs@.len() as int) =~= dirs@);
        assert(forall|k: int| 0 <= k < matching@.len() ==> matching@.map_values(|k: usize| k as int)[k] == matching@[k] as int);
    }
    let wildcard = WILDCARD_ATTR_PATH_REGEX.to_owned();
    if matching.len() == 0 {
        Ok(None)
    } else if matching.len() == 1 {
        Ok(Some(&dirs[matching[0]]))
    } else if matching.len() == 2 {
        let first = &dirs[matching[0]];
        let second = &dirs[matching[1]];
        if second.attr_path_regex == wildcard {
            Ok(Some(first))
        } else if first.attr_path_regex == wildcard {
            Ok(Some(second))
        } else {
            Err(ByNameDirLookupError::Overlapping)
        }
    } else {
        Err(ByNameDirLookupError::Overlapping)
    }
}

/// The components of a relative path that follow the segment `segment` read so far: the
/// non-empty parts between separators.
pub open spec fn split_components(s: Seq<char>, segment: Seq<char>) -> Seq<Seq<char>>
    decreases s.len(),
{
    let done: Seq<Seq<char>> = if segment.len() > 0 {
        seq![segment]
    } else {
        Seq::empty()
    };
    if s.len() == 0 {
        done
    } else if s[0] == '/' {
        done + split_components(s.drop_first(), Seq::empty())
    } else {
        split_components(s.drop_first(), segment.push(s[0]))
    }
}

/// The components of a relative path: its non-empty parts between separators, `.` and `..`
/// included.
pub open spec fn path_components(s: Seq<char>) -> Seq<Seq<char>> {
    split_components(s, Seq::empty())
}

/// Relies on the equality of relative_path::RelativePath, which compares the components of the
/// two paths.
#[verifier::external_body]
fn same_relative_path(a: &str, b: &str) -> (r: bool)
    ensures
        r == (path_components(a@) == path_components(b@)),
{
    relative_path::RelativePath::new(a) == relative_path::RelativePath::new(b)
}

/// A character allowed in a shard name: a lowercase ASCII letter, a digit, `_` or `-`.
pub open spec fn is_shard_char(c: char) -> bool {
    ('a' <= c && c <= 'z') || ('0' <= c && c <= '9') || c == '_' || c == '-'
}

/// A character allowed in a package name: an ASCII letter, a digit, `_` or `-`.
pub open spec fn is_package_char(c: char) -> bool {
    is_shard_char(c) || ('A' <= c && c <= 'Z')
}

/// A shard name is one or two allowed characters.
pub open spec fn valid_shard_name(s: Seq<char>) -> bool {
    1 <= s.len() <= 2 && forall|i: int| 0 <= i < s.len() ==> is_shard_char(#[trigger] s[i])
}

/// A package name is one or more allowed characters.
pub open spec fn valid_package_name(s: Seq<char>) -> bool {
    1 <= s.len() && forall|i: int| 0 <= i < s.len() ==> is_package_char(#[trigger] s[i])
}

/// Whether a name is a valid shard name.
pub fn is_valid_shard_name(name: &str) -> (r: bool)
    ensures
        r == valid_shard_name(name@),
{
    let n = name.unicode_len();
    if n < 1 || n > 2 {
        return false;
    }
    let mut i: usize = 0;
    while i < n
        invariant
            n == name@.len(),
            i <= n,
            forall|j: int| 0 <= j < i ==> is_shard_char(#[trigger] name@[j]),
        decreases n - i,
    {
        let c = name.get_char(i);
        if !(('a' <= c && c <= 'z') || ('0' <= c && c <= '9') || c == '_' || c == '-') {
            return false;
        }
        i = i + 1;
    }
    true
}

/// Whether a name is a valid package directory name.
pub fn is_valid_package_name(name: &str) -> (r: bool)
    ensures
        r == valid_package_name(name@),
{
    let n = name.unicode_len();
    if n < 1 {
        return false;
    }
    let mut i: usize = 0;
    while i < n
        invariant
            n == name@.len(),
            i <= n,
            forall|j: int| 0 <= j < i ==> is_package_char(#[trigger] name@[j]),
        decreases n - i,
    {
        let c = name.get_char(i);
        if !(('a' <= c && c <= 'z') || ('A' <= c && c <= 'Z') || ('0' <= c && c <= '9') || c == '_'
            || c == '-') {
            return false;
        }
        i = i + 1;
    }
    true
}

/// What is known of one entry of a shard directory.
pub struct PackageEntry {
    /// The name of the entry.
    pub name: String,
    pub is_dir: bool,
    /// Whether the entry holds a `package.nix`.
    pub package_nix_exists: bool,
    /// Whether that `package.nix` is a file.
    pub package_nix_is_file: bool,
    /// The outcome of checking that the entry refers to nothing outside of itself.
    pub references: Validation<()>,
}

/// The attribute path of a package of a by-name directory with attribute prefix `prefix`.
pub open spec fn attr_path_of(prefix: Seq<char>, package_name: Seq<char>) -> Seq<char> {
    if prefix.len() > 0 {
        prefix + seq!['.'] + package_name
    } else {
        package_name
    }
}

/// The problems of a package directory that sits at `dir` in the shard it was found in.
pub open spec fn package_dir_problems(
    entry: PackageEntry,
    shard_name_valid: bool,
    dir: String,
    by_name_dir: ByNameDir,
) -> Seq<Problem> {
    let name = entry.name;
    let name_valid = valid_package_name(name@);
    let invalid = if !name_valid {
        seq![
            Problem::InvalidPackageDirectoryName(
                InvalidPackageDirectoryName { package_name: name, relative_package_dir: dir },
            ),
        ]
    } else {
        Seq::empty()
    };
    let misplaced = path_components(dir@) != path_components(package_dir_of(name@, by_name_dir.path@));
    let wrong_shard = if misplaced && shard_name_valid && name_valid {
        seq![
            Problem::PackageInWrongShard(
                PackageInWrongShard {
                    package_name: name,
                    relative_package_dir: dir,
                    by_name_path: by_name_dir.path,
                },
            ),
        ]
    } else {
        Seq::empty()
    };
    let package_nix = if !entry.package_nix_exists {
        seq![
            Problem::PackageNixMissing(
                PackageNixMissing { package_name: name, by_name_path: by_name_dir.path },
            ),
        ]
    } else if !entry.package_nix_is_file {
        seq![Problem::PackageNixIsNotFile(PackageNixIsNotFile { package_name: name })]
    } else {
        Seq::empty()
    };
    invalid + wrong_shard + package_nix + entry.references.problems()
}

fn single_problem(p: Problem) -> (r: Validation<()>)
    ensures
        r is Failure,
        r.problems() == seq![p],
        r.wf(),
{
    Validation::from_problem(p)
}

/// Checks one entry of the shard `shard_name` of a by-name directory. An entry that is not a
/// directory is reported alone. For a directory: its name, its shard, its `package.nix` and its
/// references are checked, and every problem is reported; a wrong shard only where the shard
/// and package names are both valid. A clean directory gives its package.
pub fn check_package(
    shard_name: &str,
    shard_name_valid: bool,
    entry: PackageEntry,
    by_name_dir: &ByNameDir,
) -> (r: Validation<ByNamePackage>)
    requires
        entry.references.wf(),
    ensures
        r.wf(),
        r is Success <==> r.problems().len() == 0,
        !entry.is_dir ==> r.problems() == seq![
            Problem::PackageDirectoryIsNotDirectory(
                PackageDirectoryIsNotDirectory {
                    package_name: entry.name,
                    by_name_path: by_name_dir.path,
                },
            ),
        ],
        entry.is_dir ==> exists|dir: String|
            dir@ == path_join(path_join(by_name_dir.path@, shard_name@), entry.name@)
                && r.problems() == package_dir_problems(entry, shard_name_valid, dir, *by_name_dir),
        r matches Validation::Success(p) ==> {
            &&& p.package_name == entry.name
            &&& p.attr_path@ == attr_path_of(by_name_dir.unversioned_attr_prefix@, entry.name@)
            &&& p.by_name_dir_id == by_name_dir.id
        },
{
    let ghost given = entry;
    let PackageEntry { name, is_dir, package_nix_exists, package_nix_is_file, references } = entry;
    if !is_dir {
        return Validation::from_problem(
            Problem::PackageDirectoryIsNotDirectory(
                PackageDirectoryIsNotDirectory {
                    package_name: name,
                    by_name_path: by_name_dir.path.clone(),
                },
            ),
        );
    }
    let shard_dir = join_path(by_name_dir.path.as_str(), shard_name);
    let relative_package_dir = join_path(shard_dir.as_str(), name.as_str());
    let name_valid = is_valid_package_name(name.as_str());
    let invalid: Validation<()> = if !name_valid {
        single_problem(
            Problem::InvalidPackageDirectoryName(
                InvalidPackageDirectoryName {
                    package_name: name.clone(),
                    relative_package_dir: relative_package_dir.clone(),
                },
            ),
        )
    } else {
        Validation::Success(())
    };
    let correct_dir = relative_dir_for_package(name.as_str(), by_name_dir.path.as_str());
    let misplaced = !same_relative_path(relative_package_dir.as_str(), correct_dir.as_str());
    let wrong_shard: Validation<()> = if misplaced && shard_name_valid && name_valid {
        single_problem(
            Problem::PackageInWrongShard(
                PackageInWrongShard {
                    package_name: name.clone(),
                    relative_package_dir: relative_package_dir.clone(),
                    by_name_path: by_name_dir.path.clone(),
                },
            ),
        )
    } else {
        Validation::Success(())
    };
    let package_nix: Validation<()> = if !package_nix_exists {
        single_problem(
            Problem::PackageNixMissing(
                PackageNixMissing { package_name: name.clone(), by_name_path: by_name_dir.path.clone() },
            ),
        )
    } else if !package_nix_is_file {
        single_problem(Problem::PackageNixIsNotFile(PackageNixIsNotFile { package_name: name.clone() }))
    } else {
        Validation::Success(())
    };
    let result = invalid.and_(wrong_shard).and_(package_nix).and_(references);
    proof {
        let expected = package_dir_problems(given, shard_name_valid, relative_package_dir, *by_name_dir);
        assert(result.problems() =~= expected);
    }
    let attr_path = if by_name_dir.unversioned_attr_prefix.as_str().unicode_len() > 0 {
        let prefix = by_name_dir.unversioned_attr_prefix.clone();
        proof {
            reveal_strlit(".");
            assert("."@ =~= seq!['.']);
        }
        prefix.concat(".").concat(name.as_str())
    } else {
        name.clone()
    };
    let id = by_name_dir.id.clone();
    match result {
        Validation::Success(_) => Validation::Success(
            ByNamePackage { attr_path, package_name: name, by_name_dir_id: id },
        ),
        Validation::Failure(ps) => Validation::Failure(ps),
    }
}

/// The code point of a character after ASCII uppercase letters are made lowercase.
pub open spec fn ascii_lower(c: char) -> int {
    if 'A' <= c && c <= 'Z' {
        (c as u32) + 32
    } else {
        c as u32 as int
    }
}

/// Whether two strings are equal when ASCII letters are compared without case.
pub open spec fn eq_ignore_ascii_case(a: Seq<char>, b: Seq<char>) -> bool {
    &&& a.len() == b.len()
    &&& forall|i: int| 0 <= i < a.len() ==> ascii_lower(#[trigger] a[i]) == ascii_lower(b[i])
}

fn lower_ascii_char(c: char) -> (r: u32)
    ensures
        r as int == ascii_lower(c),
{
    if 'A' <= c && c <= 'Z' {
        (c as u32) + 32
    } else {
        c as u32
    }
}

/// Whether `a` and `b` are equal when ASCII letters are compared without case.
pub fn same_ignoring_ascii_case(a: &str, b: &str) -> (r: bool)
    ensures
        r == eq_ignore_ascii_case(a@, b@),
{
    let n = a.unicode_len();
    if n != b.unicode_len() {
        return false;
    }
    let mut i: usize = 0;
    while i < n
        invariant
            n == a@.len(),
            n == b@.len(),
            i <= n,
            forall|j: int| 0 <= j < i ==> ascii_lower(#[trigger] a@[j]) == ascii_lower(b@[j]),
        decreases n - i,
    {
        if lower_ascii_char(a.get_char(i)) != lower_ascii_char(b.get_char(i)) {
            return false;
        }
        i = i + 1;
    }
    true
}

/// What is known of one entry of a by-name directory.
pub struct ShardEntry {
    pub name: String,
    pub is_dir: bool,
    /// The entries of the shard directory, sorted by name; empty for a file.
    pub packages: Vec<PackageEntry>,
}

/// The problems of pairs of neighbouring package names among `packages` that differ only in
/// case, in order.
pub open spec fn duplicate_problems(
    shard_name: String,
    packages: Seq<PackageEntry>,
    by_name_dir: ByNameDir,
) -> Seq<Problem>
    decreases packages.len(),
{
    if packages.len() < 2 {
        Seq::empty()
    } else {
        let n = packages.len();
        let first = packages[n - 2].name;
        let second = packages[n - 1].name;
        let own = if eq_ignore_ascii_case(first@, second@) {
            seq![
                Problem::ByNameShardIsCaseSensitiveDuplicate(
                    ByNameShardIsCaseSensitiveDuplicate {
                        shard_name,
                        first,
                        second,
                        by_name_path: by_name_dir.path,
                    },
                ),
            ]
        } else {
            Seq::empty()
        };
        duplicate_problems(shard_name, packages.drop_last(), by_name_dir) + own
    }
}

/// The problems of a shard directory itself: an invalid name, then the names that differ only
/// in case.
pub open spec fn shard_dir_problems(entry: ShardEntry, by_name_dir: ByNameDir) -> Seq<Problem> {
    let invalid = if !valid_shard_name(entry.name@) {
        seq![Problem::ByNameShardIsInvalid(ByNameShardIsInvalid { shard_name: entry.name })]
    } else {
        Seq::empty()
    };
    invalid + duplicate_problems(entry.name, entry.packages@, by_name_dir)
}

/// Whether a package entry passes every check, in a shard whose name validity is given.
pub open spec fn package_is_clean(entry: PackageEntry, shard_name_valid: bool, dir: Seq<char>, by_name_dir: ByNameDir) -> bool {
    &&& entry.is_dir
    &&& valid_package_name(entry.name@)
    &&& (path_components(dir) == path_components(package_dir_of(entry.name@, by_name_dir.path@)) || !shard_name_valid)
    &&& entry.package_nix_exists
    &&& entry.package_nix_is_file
    &&& entry.references is Success
}

/// The problems of a shard directory itself, stated over the entries as they are before the
/// packages are checked.
fn shard_duplicates(shard_name: &String, packages: &Vec<PackageEntry>, by_name_dir: &ByNameDir) -> (r: Validation<()>)
    ensures
        r.wf(),
        r.problems() == duplicate_problems(*shard_name, packages@, *by_name_dir),
        r is Success <==> r.problems().len() == 0,
{
    let mut problems: Vec<Problem> = Vec::new();
    let mut i: usize = 1;
    proof {
        assert(problems@ =~= duplicate_problems(*shard_name, packages@.take(0), *by_name_dir));
        if packages@.len() >= 1 {
            assert(problems@ =~= duplicate_problems(*shard_name, packages@.take(1), *by_name_dir));
        }
    }
    while i < packages.len()
        invariant
            1 <= i,
            i <= packages@.len() || packages@.len() == 0,
            packages@.len() > 0 ==> problems@ == duplicate_problems(*shard_name, packages@.take(i as int), *by_name_dir),
            packages@.len() == 0 ==> problems@.len() == 0,
        decreases packages@.len() - i,
    {
        let first = &packages[i - 1].name;
        let second = &packages[i].name;
        proof {
            let t = packages@.take(i + 1);
            assert(t.drop_last() =~= packages@.take(i as int));
            assert(t[t.len() - 2] == packages@[i - 1]);
            assert(t[t.len() - 1] == packages@[i as int]);
        }
        if same_ignoring_ascii_case(first.as_str(), second.as_str()) {
            problems.push(
                Problem::ByNameShardIsCaseSensitiveDuplicate(
                    ByNameShardIsCaseSensitiveDuplicate {
                        shard_name: shard_name.clone(),
                        first: first.clone(),
                        second: second.clone(),
                        by_name_path: by_name_dir.path.clone(),
                    },
                ),
            );
        }
        i = i + 1;
    }
    proof {
        if packages@.len() > 0 {
            assert(packages@.take(packages@.len() as int) =~= packages@);
        } else {
            assert(problems@ =~= duplicate_problems(*shard_name, packages@, *by_name_dir));
        }
    }
    if problems.len() == 0 {
        Validation::Success(())
    } else {
        Validation::Failure(problems)
    }
}

/// The problems of one entry of the shard `shard_name`, as `check_package` reports them.
pub open spec fn entry_problems_ok(
    ps: Seq<Problem>,
    entry: PackageEntry,
    shard_name: Seq<char>,
    shard_name_valid: bool,
    by_name_dir: ByNameDir,
) -> bool {
    if entry.is_dir {
        exists|dir: String|
            dir@ == path_join(path_join(by_name_dir.path@, shard_name), entry.name@) && ps
                == package_dir_problems(entry, shard_name_valid, dir, by_name_dir)
    } else {
        ps == seq![
            Problem::PackageDirectoryIsNotDirectory(
                PackageDirectoryIsNotDirectory {
                    package_name: entry.name,
                    by_name_path: by_name_dir.path,
                },
            ),
        ]
    }
}

/// The lists of `pp` one after the other.
pub open spec fn concat_all(pp: Seq<Seq<Problem>>) -> Seq<Problem>
    decreases pp.len(),
{
    if pp.len() == 0 {
        Seq::empty()
    } else {
        concat_all(pp.drop_last()) + pp.last()
    }
}

/// Whether `p` is the package that a clean entry gives in the by-name directory `by_name_dir`.
pub open spec fn describes(p: ByNamePackage, entry: PackageEntry, by_name_dir: ByNameDir) -> bool {
    &&& p.package_name == entry.name
    &&& p.attr_path@ == attr_path_of(by_name_dir.unversioned_attr_prefix@, entry.name@)
    &&& p.by_name_dir_id == by_name_dir.id
}

/// The problems of one entry of a by-name directory, as `check_shard` reports them: none for a
/// `README.md`; one for another entry that is not a directory; for a shard directory, its own
/// problems followed by those of each of its entries, in order.
pub open spec fn shard_problems_ok(ps: Seq<Problem>, entry: ShardEntry, by_name_dir: ByNameDir) -> bool {
    if entry.name@ == "README.md"@ {
        ps.len() == 0
    } else if !entry.is_dir {
        ps == seq![
            Problem::ByNameShardIsNotDirectory(
                ByNameShardIsNotDirectory { shard_name: entry.name, by_name_path: by_name_dir.path },
            ),
        ]
    } else {
        exists|pp: Seq<Seq<Problem>>|
            pp.len() == entry.packages@.len() && (forall|i: int|
                0 <= i < pp.len() ==> entry_problems_ok(
                    #[trigger] pp[i],
                    entry.packages@[i],
                    entry.name@,
                    valid_shard_name(entry.name@),
                    by_name_dir,
                )) && ps == shard_dir_problems(entry, by_name_dir) + concat_all(pp)
    }
}

/// The package entries of `shards` that stand for packages, in order: those of every shard but a
/// `README.md`.
pub open spec fn listed_packages(shards: Seq<ShardEntry>) -> Seq<PackageEntry>
    decreases shards.len(),
{
    if shards.len() == 0 {
        Seq::empty()
    } else {
        listed_packages(shards.drop_last()) + shard_packages(shards.last())
    }
}

/// The package entries of one entry of a by-name directory: none for a `README.md`.
pub open spec fn shard_packages(entry: ShardEntry) -> Seq<PackageEntry> {
    if entry.name@ == "README.md"@ {
        Seq::empty()
    } else {
        entry.packages@
    }
}

/// Whether `v` holds the packages that the package entries `entries` give, in order.
pub open spec fn gives_packages(v: Seq<ByNamePackage>, entries: Seq<PackageEntry>, by_name_dir: ByNameDir) -> bool {
    &&& v.len() == entries.len()
    &&& forall|k: int| 0 <= k < v.len() ==> describes(#[trigger] v[k], entries[k], by_name_dir)
}

proof fn lemma_all_problems_concat<T>(vs: Seq<Validation<T>>)
    ensures
        all_problems(vs) == concat_all(vs.map_values(|v: Validation<T>| v.problems())),
    decreases vs.len(),
{
    if vs.len() > 0 {
        assert(vs.drop_last().map_values(|v: Validation<T>| v.problems()) =~= vs.map_values(
            |v: Validation<T>| v.problems(),
        ).drop_last());
        lemma_all_problems_concat(vs.drop_last());
    }
}

/// Checks one entry of a by-name directory. A `README.md` is allowed and holds no packages. Any
/// other entry that is not a directory is reported alone. A shard directory is checked for its
/// name and for package names that differ only in case, and each of its entries is checked as a
/// package; all problems are reported, those of the shard first.
pub fn check_shard(entry: ShardEntry, by_name_dir: &ByNameDir) -> (r: Validation<Vec<ByNamePackage>>)
    requires
        forall|i: int| 0 <= i < entry.packages@.len() ==> (#[trigger] entry.packages@[i]).references.wf(),
    ensures
        r.wf(),
        entry.name@ == "README.md"@ ==> (r matches Validation::Success(v) && v@.len() == 0),
        entry.name@ != "README.md"@ && !entry.is_dir ==> r.problems() == seq![
            Problem::ByNameShardIsNotDirectory(
                ByNameShardIsNotDirectory { shard_name: entry.name, by_name_path: by_name_dir.path },
            ),
        ],
        entry.name@ != "README.md"@ && entry.is_dir ==> {
            let own = shard_dir_problems(entry, *by_name_dir);
            &&& r.problems().take(own.len() as int) == own
            &&& (r is Success <==> own.len() == 0 && forall|i: int|
                0 <= i < entry.packages@.len() ==> package_is_clean(
                    #[trigger] entry.packages@[i],
                    valid_shard_name(entry.name@),
                    path_join(path_join(by_name_dir.path@, entry.name@), entry.packages@[i].name@),
                    *by_name_dir,
                ))
            &&& r matches Validation::Success(v) ==> v@.len() == entry.packages@.len() && forall|i: int|
                0 <= i < v@.len() ==> describes(#[trigger] v@[i], entry.packages@[i], *by_name_dir)
        },
        shard_problems_ok(r.problems(), entry, *by_name_dir),
{
    let readme = "README.md".to_owned();
    if entry.name == readme {
        return Validation::Success(Vec::new());
    }
    let ghost given = entry;
    let ShardEntry { name, is_dir, packages } = entry;
    if !is_dir {
        return Validation::from_problem(
            Problem::ByNameShardIsNotDirectory(
                ByNameShardIsNotDirectory { shard_name: name, by_name_path: by_name_dir.path.clone() },
            ),
        );
    }
    let shard_name_valid = is_valid_shard_name(name.as_str());
    let invalid: Validation<()> = if !shard_name_valid {
        single_problem(Problem::ByNameShardIsInvalid(ByNameShardIsInvalid { shard_name: name.clone() }))
    } else {
        Validation::Success(())
    };
    let duplicates = shard_duplicates(&name, &packages, by_name_dir);
    let own = invalid.and_(duplicates);
    proof {
        assert(own.problems() =~= shard_dir_problems(given, *by_name_dir));
    }
    let ghost entries = packages@;
    let mut results: Vec<Validation<ByNamePackage>> = Vec::new();
    for package in it: packages
        invariant
            it.seq() == entries,
            entries == given.packages@,
            forall|i: int| 0 <= i < entries.len() ==> (#[trigger] entries[i]).references.wf(),
            results@.len() == it.index(),
            forall|i: int| 0 <= i < it.index() ==> (#[trigger] results@[i]).wf(),
            forall|i: int| 0 <= i < it.index() ==> ((#[trigger] results@[i]) is Success <==> package_is_clean(
                entries[i],
                shard_name_valid,
                path_join(path_join(by_name_dir.path@, name@), entries[i].name@),
                *by_name_dir,
            )),
            forall|i: int| 0 <= i < it.index() ==> ((#[trigger] results@[i]) matches Validation::Success(p)
                ==> describes(p, entries[i], *by_name_dir)),
            forall|i: int| 0 <= i < it.index() ==> entry_problems_ok(
                (#[trigger] results@[i]).problems(),
                entries[i],
                name@,
                shard_name_valid,
                *by_name_dir,
            ),
    {
        let ghost i = it.index() as int;
        assert(entries[i] == package);
        let result = check_package(name.as_str(), shard_name_valid, package, by_name_dir);
        proof {
            if package.is_dir {
                let dir = choose|dir: String|
                    dir@ == path_join(path_join(by_name_dir.path@, name@), package.name@)
                        && result.problems() == package_dir_problems(package, shard_name_valid, dir, *by_name_dir);
                let clean = package_is_clean(package, shard_name_valid, dir@, *by_name_dir);
                if clean {
                    assert(package_dir_problems(package, shard_name_valid, dir, *by_name_dir).len() == 0);
                } else {
                    assert(package_dir_problems(package, shard_name_valid, dir, *by_name_dir).len() > 0);
                }
            }
        }
        results.push(result);
    }
    let ghost all_results = results@;
    let packages_result = sequence(results);
    let ghost packages_view = packages_result;
    let r = own.and_(packages_result);
    proof {
        let own_problems = shard_dir_problems(given, *by_name_dir);
        assert(r.problems().take(own_problems.len() as int) =~= own_problems);
        let dir_of = |i: int| path_join(path_join(by_name_dir.path@, given.name@), given.packages@[i].name@);
        if packages_view is Success {
            assert forall|i: int| 0 <= i < given.packages@.len() implies package_is_clean(
                #[trigger] given.packages@[i],
                valid_shard_name(given.name@),
                dir_of(i),
                *by_name_dir,
            ) by {
                assert(all_results[i] is Success);
            }
        }
        if forall|i: int| 0 <= i < given.packages@.len() ==> package_is_clean(
            #[trigger] given.packages@[i],
            valid_shard_name(given.name@),
            dir_of(i),
            *by_name_dir,
        ) {
            assert forall|i: int| 0 <= i < all_results.len() implies (#[trigger] all_results[i]) is Success by {
                assert(package_is_clean(given.packages@[i], valid_shard_name(given.name@), dir_of(i), *by_name_dir));
            }
        }
        if let Validation::Success(v) = packages_view {
            assert forall|i: int| 0 <= i < v@.len() implies describes(
                #[trigger] v@[i],
                given.packages@[i],
                *by_name_dir,
            ) by {
                assert(v@[i] == all_results[i]->Success_0);
            }
        }
        let pp = all_results.map_values(|v: Validation<ByNamePackage>| v.problems());
        lemma_all_problems_concat(all_results);
        assert forall|i: int| 0 <= i < pp.len() implies entry_problems_ok(
            #[trigger] pp[i],
            given.packages@[i],
            given.name@,
            valid_shard_name(given.name@),
            *by_name_dir,
        ) by {
            assert(pp[i] == all_results[i].problems());
        }
        assert(r.problems() =~= shard_dir_problems(given, *by_name_dir) + concat_all(pp));
    }
    r
}

/// Whether an entry of a by-name directory passes every check.
pub open spec fn shard_is_clean(entry: ShardEntry, by_name_dir: ByNameDir) -> bool {
    ||| entry.name@ == "README.md"@
    ||| {
        &&& entry.is_dir
        &&& shard_dir_problems(entry, by_name_dir).len() == 0
        &&& forall|i: int|
            0 <= i < entry.packages@.len() ==> package_is_clean(
                #[trigger] entry.packages@[i],
                valid_shard_name(entry.name@),
                path_join(path_join(by_name_dir.path@, entry.name@), entry.packages@[i].name@),
                by_name_dir,
            )
    }
}

/// Checks every entry of a by-name directory, in order, and gives the packages of all shards
/// when all of them pass; otherwise the problems of every shard.
pub fn check_by_name_dir(shards: Vec<ShardEntry>, by_name_dir: &ByNameDir) -> (r: Validation<Vec<ByNamePackage>>)
    requires
        forall|i: int, j: int|
            0 <= i < shards@.len() && 0 <= j < shards@[i].packages@.len() ==> (#[trigger] shards@[i].packages@[j]).references.wf(),
    ensures
        r.wf(),
        r is Success <==> forall|i: int| 0 <= i < shards@.len() ==> shard_is_clean(#[trigger] shards@[i], *by_name_dir),
        r matches Validation::Success(v) ==> gives_packages(v@, listed_packages(shards@), *by_name_dir),
        exists|sp: Seq<Seq<Problem>>|
            sp.len() == shards@.len() && (forall|i: int|
                0 <= i < sp.len() ==> shard_problems_ok(#[trigger] sp[i], shards@[i], *by_name_dir))
                && r.problems() == concat_all(sp),
{
    let ghost all = shards@;
    let mut results: Vec<Validation<Vec<ByNamePackage>>> = Vec::new();
    for shard in it: shards
        invariant
            it.seq() == all,
            forall|i: int, j: int|
                0 <= i < all.len() && 0 <= j < all[i].packages@.len() ==> (#[trigger] all[i].packages@[j]).references.wf(),
            results@.len() == it.index(),
            forall|i: int| 0 <= i < it.index() ==> (#[trigger] results@[i]).wf(),
            forall|i: int| 0 <= i < it.index() ==> ((#[trigger] results@[i]) is Success <==> shard_is_clean(all[i], *by_name_dir)),
            forall|i: int| 0 <= i < it.index() ==> shard_problems_ok((#[trigger] results@[i]).problems(), all[i], *by_name_dir),
            forall|i: int| 0 <= i < it.index() ==> ((#[trigger] results@[i]) matches Validation::Success(v)
                ==> gives_packages(v@, shard_packages(all[i]), *by_name_dir)),
    {
        let ghost i = it.index() as int;
        proof {
            assert(all[i] == shard);
            assert forall|j: int| 0 <= j < shard.packages@.len() implies (#[trigger] shard.packages@[j]).references.wf() by {
                assert(all[i].packages@[j] == shard.packages@[j]);
            }
        }
        let ghost entry = shard;
        let result = check_shard(shard, by_name_dir);
        proof {
            if entry.name@ != "README.md"@ && !entry.is_dir {
                assert(result.problems().len() == 1);
            }
            assert(result is Success <==> shard_is_clean(entry, *by_name_dir));
            if result is Success {
                assert(gives_packages(result->Success_0@, shard_packages(entry), *by_name_dir));
            }
        }
        results.push(result);
    }
    let ghost results_view = results@;
    let combined = sequence(results);
    proof {
        if combined is Success {
            assert forall|i: int| 0 <= i < all.len() implies shard_is_clean(#[trigger] all[i], *by_name_dir) by {
                assert(results_view[i] is Success);
            }
        }
        if forall|i: int| 0 <= i < all.len() ==> shard_is_clean(#[trigger] all[i], *by_name_dir) {
            assert forall|i: int| 0 <= i < results_view.len() implies (#[trigger] results_view[i]) is Success by {
                assert(shard_is_clean(all[i], *by_name_dir));
            }
        }
    }
    proof {
        let sp = results_view.map_values(|v: Validation<Vec<ByNamePackage>>| v.problems());
        lemma_all_problems_concat(results_view);
        assert forall|i: int| 0 <= i < sp.len() implies shard_problems_ok(
            #[trigger] sp[i],
            all[i],
            *by_name_dir,
        ) by {
            assert(sp[i] == results_view[i].problems());
        }
        assert(combined.problems() == concat_all(sp));
    }
    match combined {
        Validation::Success(groups) => {
            let ghost gs = groups@;
            let mut packages: Vec<ByNamePackage> = Vec::new();
            proof {
                assert(all.take(0) =~= Seq::<ShardEntry>::empty());
            }
            for group in it: groups
                invariant
                    it.seq() == gs,
                    gs == crate::validation::success_values(results_view),
                    results_view.len() == all.len(),
                    forall|i: int| 0 <= i < results_view.len() ==> (#[trigger] results_view[i]) is Success,
                    forall|i: int| 0 <= i < results_view.len() ==> ((#[trigger] results_view[i]) matches Validation::Success(v)
                        ==> gives_packages(v@, shard_packages(all[i]), *by_name_dir)),
                    gives_packages(packages@, listed_packages(all.take(it.index() as int)), *by_name_dir),
            {
                let ghost i = it.index() as int;
                proof {
                    assert(group == results_view[i]->Success_0);
                    assert(all.take(i + 1).drop_last() =~= all.take(i));
                    assert(all.take(i + 1).last() == all[i]);
                }
                let ghost before = packages@;
                let mut group = group;
                packages.append(&mut group);
                proof {
                    let listed = listed_packages(all.take(i + 1));
                    assert(listed == listed_packages(all.take(i)) + shard_packages(all[i]));
                    assert forall|k: int| 0 <= k < packages@.len() implies describes(
                        #[trigger] packages@[k],
                        listed[k],
                        *by_name_dir,
                    ) by {
                        if k < before.len() {
                            assert(packages@[k] == before[k]);
                        } else {
                            assert(packages@[k] == results_view[i]->Success_0@[k - before.len()]);
                        }
                    }
                }
            }
            proof {
                assert(all.take(all.len() as int) =~= all);
            }
            Validation::Success(packages)
        },
        Validation::Failure(ps) => Validation::Failure(ps),
    }
}

} // verus!
