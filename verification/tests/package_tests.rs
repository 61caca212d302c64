use hidden_features::FsTree;
use hidden_features::ManifestFile;
use hidden_features::Package;
use hidden_features::SourceFile;

const NO_FEATURES_FILE: &str = "test_files/no_features.rs";
const ONE_FEATURE_FILE: &str = "test_files/one_feature.rs";
const FOUR_FEATURES_FILE: &str = "test_files/four_features.rs";
const ONE_LINE_FEATURES_FILE: &str = "test_files/one_line_features.rs";

fn manifest_without_features() -> ManifestFile {
    ManifestFile {
        path: String::from("Cargo.toml"),
        text: String::from("[package]\nname = \"sample\"\n"),
    }
}

fn tree_with_one_file(path: &str, lines: &[&str]) -> FsTree {
    FsTree {
        root: String::from(path),
        root_exists: true,
        files: vec![SourceFile {
            path: String::from(path),
            lines: lines.iter().map(|l| String::from(*l)).collect(),
        }],
        manifests: vec![manifest_without_features()],
    }
}

#[test]
fn empty_features() {
    let excluded_paths: Vec<String> = Vec::new();
    let excluded_features: Vec<String> = Vec::new();
    let p = Package::new(excluded_paths, excluded_features);
    let res = p.check_hidden_features();
    assert!(res.is_ok());
}

#[test]
fn no_features() {
    let excluded_paths: Vec<String> = Vec::new();
    let excluded_features: Vec<String> = Vec::new();
    let mut p = Package::new(excluded_paths, excluded_features);
    let tree = tree_with_one_file(
        NO_FEATURES_FILE,
        &["fn main() {", "    println!(\"no features here\");", "}"],
    );
    let res = p.find_and_check(&tree);
    assert!(res.is_ok());
}

#[test]
fn does_not_exist() {
    let excluded_paths: Vec<String> = Vec::new();
    let excluded_features: Vec<String> = Vec::new();
    let mut p = Package::new(excluded_paths, excluded_features);
    let tree = FsTree {
        root: String::new(),
        root_exists: false,
        files: Vec::new(),
        manifests: Vec::new(),
    };
    let res = p.find_and_check(&tree);
    assert!(res.is_err());
}

#[test]
fn one_feature() {
    let excluded_paths: Vec<String> = Vec::new();
    let excluded_features: Vec<String> = Vec::new();
    let mut p = Package::new(excluded_paths, excluded_features);
    let tree = tree_with_one_file(
        ONE_FEATURE_FILE,
        &["#[cfg(feature = \"hidden-feature\")]", "fn gated() {}"],
    );
    let res = p.find_and_check(&tree);
    let features = p.hidden_features();
    assert!(features.iter().any(|f| f == "hidden-feature"));
    assert!(res.is_err());
}

#[test]
fn one_feature_but_excluded() {
    let excluded_paths: Vec<String> = Vec::new();
    let mut excluded_features: Vec<String> = Vec::new();
    excluded_features.push(String::from("hidden-feature"));
    let mut p = Package::new(excluded_paths, excluded_features);
    let tree = tree_with_one_file(
        ONE_FEATURE_FILE,
        &["#[cfg(feature = \"hidden-feature\")]", "fn gated() {}"],
    );
    let res = p.find_and_check(&tree);
    let features = p.hidden_features();
    assert!(features.is_empty());
    assert!(res.is_ok());
}

#[test]
fn one_feature_but_path_excluded() {
    let mut excluded_paths: Vec<String> = Vec::new();
    excluded_paths.push(String::from(ONE_FEATURE_FILE));
    let excluded_features: Vec<String> = Vec::new();
    let mut p = Package::new(excluded_paths, excluded_features);
    let tree = tree_with_one_file(
        ONE_FEATURE_FILE,
        &["#[cfg(feature = \"hidden-feature\")]", "fn gated() {}"],
    );
    let res = p.find_and_check(&tree);
    let features = p.hidden_features();
    assert!(features.is_empty());
    assert!(res.is_ok());
}

#[test]
fn four_features() {
    let excluded_paths: Vec<String> = Vec::new();
    let excluded_features: Vec<String> = Vec::new();
    let mut p = Package::new(excluded_paths, excluded_features);
    let tree = tree_with_one_file(
        FOUR_FEATURES_FILE,
        &[
            "#[cfg(feature = \"hidden-feature-1\")]",
            "fn gated_1() {}",
            "#[cfg(feature = \"hidden-feature-2\")]",
            "fn gated_2() {}",
            "#[cfg(feature = \"hidden-feature-3\")]",
            "fn gated_3() {}",
            "#[cfg(feature = \"hidden-feature-4\")]",
            "fn gated_4() {}",
        ],
    );
    let res = p.find_and_check(&tree);
    let mut features = p.hidden_features();
    assert!(features.iter().any(|f| f == "hidden-feature-1"));
    assert!(features.iter().any(|f| f == "hidden-feature-2"));
    assert!(features.iter().any(|f| f == "hidden-feature-3"));
    assert!(features.iter().any(|f| f == "hidden-feature-4"));
    features.retain(|f| {
        f != "hidden-feature-1" && f != "hidden-feature-2" && f != "hidden-feature-3"
            && f != "hidden-feature-4"
    });
    assert!(features.is_empty());
    assert!(res.is_err());
}

#[test]
fn one_line_features() {
    let excluded_paths: Vec<String> = Vec::new();
    let excluded_features: Vec<String> = Vec::new();
    let mut p = Package::new(excluded_paths, excluded_features);
    let tree = tree_with_one_file(
        ONE_LINE_FEATURES_FILE,
        &[
            "#[cfg(all(feature = \"get-your\", feature = \"shit-together\", feature = \"get-it-all-together\", feature = \"and-put-it-all-in-a-backpack\"))]",
            "fn gated() {}",
        ],
    );
    let res = p.find_and_check(&tree);
    let mut features = p.hidden_features();
    assert!(features.iter().any(|f| f == "get-your"));
    assert!(features.iter().any(|f| f == "shit-together"));
    assert!(features.iter().any(|f| f == "get-it-all-together"));
    assert!(features.iter().any(|f| f == "and-put-it-all-in-a-backpack"));
    features.retain(|f| {
        f != "get-your" && f != "shit-together" && f != "get-it-all-together"
            && f != "and-put-it-all-in-a-backpack"
    });
    assert!(features.is_empty());
    assert!(res.is_err());
}
