use nixpkgs_vet::problem::{
    ByNameShardIsCaseSensitiveDuplicate, ByNameShardIsInvalid, ByNameShardIsNotDirectory,
    InvalidPackageDirectoryName, PackageDirectoryIsNotDirectory, PackageInWrongShard,
    PackageNixIsNotFile, PackageNixMissing, Problem,
};
use nixpkgs_vet::structure::{
    check_by_name_dir, check_package, check_shard, expected_by_name_dir_for_package, is_valid_package_name,
    is_valid_shard_name, relative_dir_for_package, relative_dir_for_shard,
    relative_file_for_package, same_ignoring_ascii_case, shard_for_package, ByNameDir,
    ByNameDirLookupError, Config, PackageEntry, ShardEntry,
};
use nixpkgs_vet::validation::Validation;

fn dir(id: &str, path: &str, regex: &str, prefix: &str) -> ByNameDir {
    ByNameDir {
        id: id.to_string(),
        path: path.to_string(),
        attr_path_regex: regex.to_string(),
        unversioned_attr_prefix: prefix.to_string(),
        all_packages_path: "/pkgs/top-level/all-packages.nix".to_string(),
        aliases_path: None,
    }
}

fn main_dir() -> ByNameDir {
    dir("main", "pkgs/by-name", "^[^\\.]*$", "")
}

fn entry(name: &str) -> PackageEntry {
    PackageEntry {
        name: name.to_string(),
        is_dir: true,
        package_nix_exists: true,
        package_nix_is_file: true,
        references: Validation::Success(()),
    }
}

fn problems_of<T>(v: Validation<T>) -> Vec<Problem> {
    match v {
        Validation::Success(_) => Vec::new(),
        Validation::Failure(ps) => ps,
    }
}

#[test]
fn shards_are_two_lowercase_characters() {
    assert_eq!(shard_for_package("Foo"), "fo");
    assert_eq!(shard_for_package("x"), "x");
    assert_eq!(shard_for_package("ÄBc"), "äb");
}

#[test]
fn package_paths() {
    assert_eq!(relative_dir_for_shard("fo", "pkgs/by-name"), "pkgs/by-name/fo");
    assert_eq!(relative_dir_for_package("Foo", "pkgs/by-name"), "pkgs/by-name/fo/Foo");
    assert_eq!(
        relative_file_for_package("foo", "pkgs/by-name"),
        "pkgs/by-name/fo/foo/package.nix"
    );
    assert_eq!(relative_dir_for_shard("fo", "pkgs/by-name/"), "pkgs/by-name/fo");
}

#[test]
fn name_validity() {
    assert!(is_valid_shard_name("fo"));
    assert!(is_valid_shard_name("_"));
    assert!(!is_valid_shard_name("Fo"));
    assert!(!is_valid_shard_name("foo"));
    assert!(!is_valid_shard_name(""));
    assert!(is_valid_package_name("Foo_bar-2"));
    assert!(!is_valid_package_name("foo.bar"));
    assert!(!is_valid_package_name(""));
}

#[test]
fn ascii_case_comparison() {
    assert!(same_ignoring_ascii_case("foO", "foo"));
    assert!(!same_ignoring_ascii_case("foo", "fooo"));
    assert!(!same_ignoring_ascii_case("foa", "foo"));
}

#[test]
fn by_name_dir_lookup_prefers_the_specific_directory() {
    let config = Config {
        by_name_dirs: vec![
            main_dir(),
            dir("python", "pkgs/development/python-modules/by-name", "^python3Packages\\.[^\\.]*$", "python3Packages"),
        ],
    };
    assert_eq!(expected_by_name_dir_for_package("hello", &config).unwrap().unwrap().id, "main");
    assert_eq!(
        expected_by_name_dir_for_package("python3Packages.requests", &config).unwrap().unwrap().id,
        "python"
    );
    assert!(expected_by_name_dir_for_package("a.b.c", &config).unwrap().is_none());

    let swapped = Config {
        by_name_dirs: vec![dir("other", "pkgs/other", "^h.*$", ""), main_dir()],
    };
    assert_eq!(expected_by_name_dir_for_package("hello", &swapped).unwrap().unwrap().id, "other");

    let overlapping = Config {
        by_name_dirs: vec![dir("a", "a", "^h", ""), dir("b", "b", "o$", "")],
    };
    assert_eq!(
        expected_by_name_dir_for_package("hello", &overlapping).err(),
        Some(ByNameDirLookupError::Overlapping)
    );

    let invalid = Config { by_name_dirs: vec![main_dir(), dir("bad", "bad", "(", "")] };
    assert_eq!(
        expected_by_name_dir_for_package("hello", &invalid).err(),
        Some(ByNameDirLookupError::InvalidPattern(1))
    );
}

#[test]
fn clean_package_gives_its_attribute() {
    let d = main_dir();
    match check_package("fo", true, entry("foo"), &d) {
        Validation::Success(p) => {
            assert_eq!(p.attr_path, "foo");
            assert_eq!(p.package_name, "foo");
            assert_eq!(p.by_name_dir_id, "main");
        }
        Validation::Failure(_) => panic!("expected a clean package"),
    }
    let prefixed = dir("py", "pkgs/py", "^py\\.[^\\.]*$", "py");
    match check_package("fo", true, entry("foo"), &prefixed) {
        Validation::Success(p) => assert_eq!(p.attr_path, "py.foo"),
        Validation::Failure(_) => panic!("expected a clean package"),
    }
}

#[test]
fn package_problems() {
    let d = main_dir();
    let mut file = entry("foo");
    file.is_dir = false;
    assert_eq!(
        problems_of(check_package("fo", true, file, &d)),
        vec![Problem::PackageDirectoryIsNotDirectory(PackageDirectoryIsNotDirectory {
            package_name: "foo".to_string(),
            by_name_path: "pkgs/by-name".to_string(),
        })]
    );

    assert_eq!(
        problems_of(check_package("ba", true, entry("foo"), &d)),
        vec![Problem::PackageInWrongShard(PackageInWrongShard {
            package_name: "foo".to_string(),
            relative_package_dir: "pkgs/by-name/ba/foo".to_string(),
            by_name_path: "pkgs/by-name".to_string(),
        })]
    );

    let mut bad = entry("fo.o");
    bad.package_nix_exists = false;
    bad.references = Validation::Failure(vec![Problem::PackageNixIsNotFile(PackageNixIsNotFile::new("x".to_string()))]);
    assert_eq!(
        problems_of(check_package("fo", true, bad, &d)),
        vec![
            Problem::InvalidPackageDirectoryName(InvalidPackageDirectoryName {
                package_name: "fo.o".to_string(),
                relative_package_dir: "pkgs/by-name/fo/fo.o".to_string(),
            }),
            Problem::PackageNixMissing(PackageNixMissing {
                package_name: "fo.o".to_string(),
                by_name_path: "pkgs/by-name".to_string(),
            }),
            Problem::PackageNixIsNotFile(PackageNixIsNotFile::new("x".to_string())),
        ]
    );

    let mut not_file = entry("foo");
    not_file.package_nix_is_file = false;
    assert_eq!(
        problems_of(check_package("fo", true, not_file, &d)),
        vec![Problem::PackageNixIsNotFile(PackageNixIsNotFile::new("foo".to_string()))]
    );

    // A wrong shard is only reported when the shard name is valid.
    assert!(problems_of(check_package("BA", false, entry("foo"), &d)).is_empty());
}

#[test]
fn shard_checks() {
    let d = main_dir();
    let readme = ShardEntry { name: "README.md".to_string(), is_dir: false, packages: vec![] };
    assert!(matches!(check_shard(readme, &d), Validation::Success(v) if v.is_empty()));

    let file = ShardEntry { name: "fo".to_string(), is_dir: false, packages: vec![] };
    assert_eq!(
        problems_of(check_shard(file, &d)),
        vec![Problem::ByNameShardIsNotDirectory(ByNameShardIsNotDirectory {
            shard_name: "fo".to_string(),
            by_name_path: "pkgs/by-name".to_string(),
        })]
    );

    let duplicates = ShardEntry {
        name: "fo".to_string(),
        is_dir: true,
        packages: vec![entry("foO"), entry("foo")],
    };
    assert_eq!(
        problems_of(check_shard(duplicates, &d)),
        vec![Problem::ByNameShardIsCaseSensitiveDuplicate(ByNameShardIsCaseSensitiveDuplicate {
            shard_name: "fo".to_string(),
            first: "foO".to_string(),
            second: "foo".to_string(),
            by_name_path: "pkgs/by-name".to_string(),
        })]
    );

    let invalid = ShardEntry { name: "FOO".to_string(), is_dir: true, packages: vec![entry("foo")] };
    assert_eq!(
        problems_of(check_shard(invalid, &d)),
        vec![Problem::ByNameShardIsInvalid(ByNameShardIsInvalid::new("FOO".to_string()))]
    );

    let clean = ShardEntry { name: "fo".to_string(), is_dir: true, packages: vec![entry("foo"), entry("fob")] };
    match check_shard(clean, &d) {
        Validation::Success(v) => {
            assert_eq!(v.len(), 2);
            assert_eq!(v[0].package_name, "foo");
            assert_eq!(v[1].package_name, "fob");
        }
        Validation::Failure(_) => panic!("expected a clean shard"),
    }
}

#[test]
fn by_name_dir_gives_all_packages() {
    let d = main_dir();
    let shards = vec![
        ShardEntry { name: "README.md".to_string(), is_dir: false, packages: vec![] },
        ShardEntry { name: "ba".to_string(), is_dir: true, packages: vec![entry("bar")] },
        ShardEntry { name: "fo".to_string(), is_dir: true, packages: vec![entry("foo")] },
    ];
    match check_by_name_dir(shards, &d) {
        Validation::Success(v) => {
            let names: Vec<&str> = v.iter().map(|p| p.package_name.as_str()).collect();
            assert_eq!(names, vec!["bar", "foo"]);
            let attrs: Vec<&str> = v.iter().map(|p| p.attr_path.as_str()).collect();
            assert_eq!(attrs, vec!["bar", "foo"]);
            assert!(v.iter().all(|p| p.by_name_dir_id == "main"));
        }
        Validation::Failure(_) => panic!("expected a clean directory"),
    }
    let shards = vec![
        ShardEntry { name: "x".to_string(), is_dir: false, packages: vec![] },
        ShardEntry { name: "fo".to_string(), is_dir: true, packages: vec![entry("bar")] },
    ];
    assert_eq!(problems_of(check_by_name_dir(shards, &d)).len(), 2);
}
