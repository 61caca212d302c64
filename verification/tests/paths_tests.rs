use hidden_features::paths::is_rust_file_exec;
use hidden_features::paths::join_path;
use hidden_features::paths::parent_of;
use hidden_features::paths::path_within_exec;

#[test]
fn parents_walk_toward_the_root() {
    assert_eq!(parent_of("a/b/c"), Some(String::from("a/b")));
    assert_eq!(parent_of("a/b"), Some(String::from("a")));
    assert_eq!(parent_of("a"), Some(String::new()));
    assert_eq!(parent_of(""), None);
    assert_eq!(parent_of("/"), None);
    assert_eq!(parent_of("/a"), Some(String::from("/")));
    assert_eq!(parent_of("/a/b"), Some(String::from("/a")));
}

#[test]
fn joining_appends_one_separator() {
    assert_eq!(join_path("a/b", "Cargo.toml"), "a/b/Cargo.toml");
    assert_eq!(join_path("", "Cargo.toml"), "Cargo.toml");
    assert_eq!(join_path("/", "Cargo.toml"), "/Cargo.toml");
}

#[test]
fn within_covers_the_base_and_its_descendants() {
    assert!(path_within_exec("a/b", "a/b"));
    assert!(path_within_exec("a/b/c.rs", "a/b"));
    assert!(path_within_exec("a/b/c/d.rs", "a/b"));
    assert!(!path_within_exec("a/bc/d.rs", "a/b"));
    assert!(!path_within_exec("a", "a/b"));
    assert!(!path_within_exec("x/a/b", "a/b"));
}

#[test]
fn rust_files_need_a_stem_and_the_rs_suffix() {
    assert!(is_rust_file_exec("src/lib.rs"));
    assert!(is_rust_file_exec("a.b.rs"));
    assert!(!is_rust_file_exec("src/.rs"));
    assert!(!is_rust_file_exec("lib.rs.bak"));
    assert!(!is_rust_file_exec("librs"));
    assert!(!is_rust_file_exec("notes.txt"));
}
