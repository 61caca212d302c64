use hidden_features::text::extract_feature_names;
use hidden_features::text::u64_to_string;

#[test]
fn extracts_one_name() {
    let names = extract_feature_names("#[cfg(feature = \"foo\")]").unwrap();
    assert_eq!(names, vec![String::from("foo")]);
}

#[test]
fn extracts_several_names_in_order() {
    let names = extract_feature_names("#[cfg(any(feature = \"foo\", feature = \"bar-baz\"))]")
        .unwrap();
    assert_eq!(names, vec![String::from("foo"), String::from("bar-baz")]);
}

#[test]
fn tolerates_spacing_around_the_equals_sign() {
    let names = extract_feature_names("feature\t =   \"spaced_out\"").unwrap();
    assert_eq!(names, vec![String::from("spaced_out")]);
}

#[test]
fn preserves_an_empty_name() {
    let names = extract_feature_names("#[cfg(feature = \"\")]").unwrap();
    assert_eq!(names, vec![String::new()]);
}

#[test]
fn malformed_lines_yield_no_names() {
    assert!(extract_feature_names("").unwrap().is_empty());
    assert!(extract_feature_names("fn main() {}").unwrap().is_empty());
    assert!(extract_feature_names("feature = foo").unwrap().is_empty());
    assert!(extract_feature_names("feature = \"unterminated").unwrap().is_empty());
    assert!(extract_feature_names("feature = \"bad.char\"").unwrap().is_empty());
    assert!(extract_feature_names("feature \"no-equals\"").unwrap().is_empty());
}

#[test]
fn name_characters_are_words_and_hyphens() {
    let names = extract_feature_names("feature = \"A-Z_09-x\"").unwrap();
    assert_eq!(names, vec![String::from("A-Z_09-x")]);
}

#[test]
fn matches_do_not_overlap() {
    let names = extract_feature_names("feature = \"a\" feature = \"b\" feature = \"c\"").unwrap();
    assert_eq!(
        names,
        vec![String::from("a"), String::from("b"), String::from("c")]
    );
}

#[test]
fn renders_decimals() {
    assert_eq!(u64_to_string(0), "0");
    assert_eq!(u64_to_string(7), "7");
    assert_eq!(u64_to_string(10), "10");
    assert_eq!(u64_to_string(1234), "1234");
    assert_eq!(u64_to_string(18446744073709551615), "18446744073709551615");
}
