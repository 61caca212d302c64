use hidden_features::Feature;
use hidden_features::FsTree;
use hidden_features::ManifestFile;
use hidden_features::Package;
use hidden_features::SourceFile;

fn file(path: &str, lines: &[&str]) -> SourceFile {
    SourceFile {
        path: String::from(path),
        lines: lines.iter().map(|l| String::from(*l)).collect(),
    }
}

fn manifest(path: &str, text: &str) -> ManifestFile {
    ManifestFile { path: String::from(path), text: String::from(text) }
}

#[test]
fn feature_accessors() {
    let used = Feature::UsedFeature {
        name: String::from("foo"),
        path: String::from("src/a.rs"),
        line_number: 12,
    };
    assert_eq!(used.name(), "foo");
    assert_eq!(used.path(), Some(&String::from("src/a.rs")));
    assert_eq!(used.clickable_path(), Some(String::from("src/a.rs:12")));
    let exposed = Feature::ExposedFeature { name: String::from("bar") };
    assert_eq!(exposed.name(), "bar");
    assert_eq!(exposed.path(), None);
    assert_eq!(exposed.clickable_path(), None);
}

#[test]
fn add_feature_rejects_an_exposed_feature() {
    let mut p = Package::new(Vec::new(), Vec::new());
    let manifests = vec![manifest("Cargo.toml", "")];
    let res = p.add_feature(Feature::ExposedFeature { name: String::from("foo") }, &manifests);
    assert_eq!(res, Err(String::from("internal error: should have a path")));
}

#[test]
fn add_feature_fails_without_an_owning_manifest() {
    let mut p = Package::new(Vec::new(), Vec::new());
    let manifests: Vec<ManifestFile> = Vec::new();
    let used = Feature::UsedFeature {
        name: String::from("foo"),
        path: String::from("a/b/x.rs"),
        line_number: 0,
    };
    let res = p.add_feature(used, &manifests);
    assert_eq!(res, Err(String::from("could not find corresponding Cargo file")));
}

#[test]
fn inserting_the_same_name_twice_keeps_one_entry() {
    let mut p = Package::new(Vec::new(), Vec::new());
    let manifests = vec![manifest("Cargo.toml", "")];
    let first = Feature::UsedFeature {
        name: String::from("foo"),
        path: String::from("src/a.rs"),
        line_number: 1,
    };
    let second = Feature::UsedFeature {
        name: String::from("foo"),
        path: String::from("src/b.rs"),
        line_number: 9,
    };
    assert!(p.add_feature(first, &manifests).is_ok());
    assert!(p.add_feature(second, &manifests).is_ok());
    let names = p.hidden_features();
    assert_eq!(names, vec![String::from("foo")]);
}

#[test]
fn inserting_two_names_keeps_two_entries() {
    let mut p = Package::new(Vec::new(), Vec::new());
    let manifests = vec![manifest("Cargo.toml", "")];
    let first = Feature::UsedFeature {
        name: String::from("foo"),
        path: String::from("src/a.rs"),
        line_number: 1,
    };
    let second = Feature::UsedFeature {
        name: String::from("bar"),
        path: String::from("src/a.rs"),
        line_number: 2,
    };
    assert!(p.add_feature(first, &manifests).is_ok());
    assert!(p.add_feature(second, &manifests).is_ok());
    let names = p.hidden_features();
    assert_eq!(names, vec![String::from("foo"), String::from("bar")]);
}

#[test]
fn resolves_the_nearest_manifest() {
    let p = Package::new(Vec::new(), Vec::new());
    let manifests = vec![manifest("a/Cargo.toml", ""), manifest("a/b/Cargo.toml", "")];
    assert_eq!(
        p.find_associated_cargo("a/b/src", &manifests),
        Some(String::from("a/b/Cargo.toml"))
    );
    assert_eq!(p.find_associated_cargo("a/other", &manifests), Some(String::from("a/Cargo.toml")));
    assert_eq!(p.find_associated_cargo("elsewhere", &manifests), None);
}

#[test]
fn a_declared_feature_is_not_hidden() {
    let mut p = Package::new(Vec::new(), Vec::new());
    let tree = FsTree {
        root: String::from("proj"),
        root_exists: true,
        files: vec![file("proj/src/lib.rs", &["#[cfg(feature = \"shiny\")]", "fn gated() {}"])],
        manifests: vec![manifest("proj/Cargo.toml", "[features]\nshiny = []\n")],
    };
    let res = p.find_and_check(&tree);
    assert!(res.is_ok());
    assert_eq!(p.report_lines(), Vec::<String>::new());
}

#[test]
fn an_undeclared_feature_is_reported() {
    let mut p = Package::new(Vec::new(), Vec::new());
    let tree = FsTree {
        root: String::from("proj"),
        root_exists: true,
        files: vec![file("proj/src/lib.rs", &["#[cfg(feature = \"shiny\")]", "fn gated() {}"])],
        manifests: vec![manifest("proj/Cargo.toml", "[features]\nother = []\n")],
    };
    let res = p.find_and_check(&tree);
    assert_eq!(res, Err(String::from("Hidden features detected.")));
    assert_eq!(
        p.report_lines(),
        vec![
            String::from("path: proj/Cargo.toml"),
            String::from("\tshiny\tproj/src/lib.rs:0"),
        ]
    );
}

#[test]
fn a_manifest_that_does_not_parse_is_fatal() {
    let mut p = Package::new(Vec::new(), Vec::new());
    let tree = FsTree {
        root: String::from("proj"),
        root_exists: true,
        files: vec![file("proj/src/lib.rs", &["#[cfg(feature = \"shiny\")]", "fn gated() {}"])],
        manifests: vec![manifest("proj/Cargo.toml", "features = [unclosed")],
    };
    assert!(p.find_used_features(&tree).is_ok());
    let res = p.find_exposed_features(&tree);
    assert_eq!(res, Err(String::from("could not parse Cargo file")));
}

#[test]
fn an_excluded_feature_is_ignored_even_when_declared() {
    let mut p = Package::new(Vec::new(), vec![String::from("shiny")]);
    let tree = FsTree {
        root: String::from("proj"),
        root_exists: true,
        files: vec![
            file(
                "proj/src/lib.rs",
                &["#[cfg(feature = \"shiny\")]", "#[cfg(feature = \"dull\")]", "fn gated() {}"],
            ),
        ],
        manifests: vec![manifest("proj/Cargo.toml", "[features]\nshiny = []\ndull = []\n")],
    };
    let res = p.find_and_check(&tree);
    assert!(res.is_ok());
    assert_eq!(p.hidden_features(), vec![String::from("dull")]);
}

#[test]
fn hidden_directories_are_not_scanned() {
    let mut p = Package::new(Vec::new(), Vec::new());
    let tree = FsTree {
        root: String::from("proj"),
        root_exists: true,
        files: vec![
            file("proj/.git/junk.rs", &["#[cfg(feature = \"sneaky\")]", "fn gated() {}"]),
            file("proj/src/.hidden.rs", &["#[cfg(feature = \"sneaky\")]", "fn gated() {}"]),
        ],
        manifests: vec![manifest("proj/Cargo.toml", "")],
    };
    let res = p.find_and_check(&tree);
    assert!(res.is_ok());
    assert!(p.hidden_features().is_empty());
}

#[test]
fn only_rust_files_are_scanned() {
    let mut p = Package::new(Vec::new(), Vec::new());
    let tree = FsTree {
        root: String::from("proj"),
        root_exists: true,
        files: vec![
            file("proj/notes.txt", &["feature = \"textual\""]),
            file("proj/src/build.rs.bak", &["feature = \"stale\""]),
        ],
        manifests: vec![manifest("proj/Cargo.toml", "")],
    };
    let res = p.find_and_check(&tree);
    assert!(res.is_ok());
    assert!(p.hidden_features().is_empty());
}

#[test]
fn files_outside_the_root_are_not_scanned() {
    let mut p = Package::new(Vec::new(), Vec::new());
    let tree = FsTree {
        root: String::from("proj/sub"),
        root_exists: true,
        files: vec![file("proj/elsewhere/x.rs", &["#[cfg(feature = \"afar\")]"])],
        manifests: vec![manifest("proj/Cargo.toml", "")],
    };
    let res = p.find_and_check(&tree);
    assert!(res.is_ok());
    assert!(p.hidden_features().is_empty());
}

#[test]
fn descendants_of_an_excluded_path_are_skipped() {
    let mut p = Package::new(vec![String::from("proj/vendor")], Vec::new());
    let tree = FsTree {
        root: String::from("proj"),
        root_exists: true,
        files: vec![
            file("proj/vendor/dep/src/lib.rs", &["#[cfg(feature = \"vendored\")]"]),
            file("proj/src/lib.rs", &["#[cfg(feature = \"mine\")]"]),
        ],
        manifests: vec![manifest("proj/Cargo.toml", "")],
    };
    let res = p.find_and_check(&tree);
    assert!(res.is_err());
    assert_eq!(p.hidden_features(), vec![String::from("mine")]);
}

#[test]
fn an_empty_tree_yields_an_empty_mapping() {
    let mut p = Package::new(Vec::new(), Vec::new());
    let tree = FsTree {
        root: String::from("proj"),
        root_exists: true,
        files: Vec::new(),
        manifests: Vec::new(),
    };
    let res = p.find_and_check(&tree);
    assert!(res.is_ok());
    assert!(p.hidden_features().is_empty());
    assert!(p.report_lines().is_empty());
}

#[test]
fn two_crates_are_reported_separately() {
    let mut p = Package::new(Vec::new(), Vec::new());
    let tree = FsTree {
        root: String::from("ws"),
        root_exists: true,
        files: vec![
            file("ws/a/src/lib.rs", &["#[cfg(feature = \"alpha\")]"]),
            file("ws/b/src/lib.rs", &["#[cfg(feature = \"beta\")]"]),
        ],
        manifests: vec![
            manifest("ws/Cargo.toml", ""),
            manifest("ws/a/Cargo.toml", ""),
            manifest("ws/b/Cargo.toml", ""),
        ],
    };
    let res = p.find_and_check(&tree);
    assert!(res.is_err());
    let names = p.hidden_features();
    assert!(names.iter().any(|f| f == "alpha"));
    assert!(names.iter().any(|f| f == "beta"));
    assert_eq!(names.len(), 2);
    assert_eq!(
        p.report_lines(),
        vec![
            String::from("path: ws/a/Cargo.toml"),
            String::from("\talpha\tws/a/src/lib.rs:0"),
            String::from("path: ws/b/Cargo.toml"),
            String::from("\tbeta\tws/b/src/lib.rs:0"),
        ]
    );
}

#[test]
fn the_unresolved_manifest_error_aborts_the_run() {
    let mut p = Package::new(Vec::new(), Vec::new());
    let tree = FsTree {
        root: String::from("proj"),
        root_exists: true,
        files: vec![file("proj/src/lib.rs", &["#[cfg(feature = \"orphan\")]"])],
        manifests: Vec::new(),
    };
    let res = p.find_and_check(&tree);
    assert_eq!(res, Err(String::from("could not find corresponding Cargo file")));
}

#[test]
fn recomputing_hidden_features_is_idempotent() {
    let mut p = Package::new(Vec::new(), Vec::new());
    let tree = FsTree {
        root: String::from("proj"),
        root_exists: true,
        files: vec![
            file(
                "proj/src/lib.rs",
                &["#[cfg(feature = \"shiny\")]", "#[cfg(feature = \"dull\")]"],
            ),
        ],
        manifests: vec![manifest("proj/Cargo.toml", "[features]\ndull = []\n")],
    };
    assert!(p.find_used_features(&tree).is_ok());
    assert!(p.find_exposed_features(&tree).is_ok());
    p.find_hidden_features();
    let first = p.report_lines();
    p.find_hidden_features();
    let second = p.report_lines();
    assert_eq!(first, second);
    assert_eq!(
        first,
        vec![String::from("path: proj/Cargo.toml"), String::from("\tshiny\tproj/src/lib.rs:0")]
    );
}

#[test]
fn hidden_is_used_minus_exposed() {
    let mut p = Package::new(Vec::new(), Vec::new());
    let tree = FsTree {
        root: String::from("proj"),
        root_exists: true,
        files: vec![
            file(
                "proj/src/lib.rs",
                &[
                    "#[cfg(feature = \"declared-and-used\")]",
                    "#[cfg(feature = \"undeclared-one\")]",
                    "#[cfg(feature = \"undeclared-two\")]",
                ],
            ),
        ],
        manifests: vec![
            manifest(
                "proj/Cargo.toml",
                "[features]\ndeclared-and-used = []\ndeclared-only = []\n",
            ),
        ],
    };
    let res = p.find_and_check(&tree);
    assert!(res.is_err());
    assert_eq!(
        p.report_lines(),
        vec![
            String::from("path: proj/Cargo.toml"),
            String::from("\tundeclared-one\tproj/src/lib.rs:1"),
            String::from("\tundeclared-two\tproj/src/lib.rs:2"),
        ]
    );
}
