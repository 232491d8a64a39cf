use pyflow::version::InterpreterVersion;
use pyflow::version::possible_py_versions;

#[test]
fn catalog_has_all_eighteen_versions() {
    let versions = possible_py_versions();
    assert_eq!(versions.len(), 18);
    assert_eq!(versions[0], InterpreterVersion::new(2, 0, 0));
    assert_eq!(versions[7], InterpreterVersion::new(2, 7, 0));
    assert_eq!(versions[8], InterpreterVersion::new(3, 3, 0));
    assert_eq!(versions[17], InterpreterVersion::new(3, 12, 0));
}

#[test]
fn catalog_strings_parse_and_match_catalog_entries() {
    let strings = vec![
        "2.0", "2.1", "2.2", "2.3", "2.4", "2.5", "2.6", "2.7", "3.3", "3.4", "3.5", "3.6",
        "3.7", "3.8", "3.9", "3.10", "3.11", "3.12",
    ];
    let versions = possible_py_versions();
    assert_eq!(strings.len(), versions.len());
    for (s, expected) in strings.iter().zip(versions.iter()) {
        let parsed = InterpreterVersion::from_str2(s);
        assert_eq!(parsed, Some(*expected));
    }
}

#[test]
fn catalog_is_strictly_increasing() {
    let versions = possible_py_versions();
    for i in 0..versions.len() {
        for j in (i + 1)..versions.len() {
            assert!(versions[i].lt(&versions[j]));
            assert!(!versions[j].lt(&versions[i]));
        }
    }
}

#[test]
fn three_ten_sits_between_three_nine_and_three_eleven() {
    let v39 = InterpreterVersion::from_str2("3.9").unwrap();
    let v310 = InterpreterVersion::from_str2("3.10").unwrap();
    let v311 = InterpreterVersion::from_str2("3.11").unwrap();
    assert!(v39.lt(&v310));
    assert!(v310.lt(&v311));
    assert!(!v310.lt(&v39));
}

#[test]
fn three_component_strings_parse_with_patch_level() {
    assert_eq!(
        InterpreterVersion::from_str2("3.10.4"),
        Some(InterpreterVersion::new(3, 10, 4))
    );
    assert_eq!(
        InterpreterVersion::from_str2("0.0.0"),
        Some(InterpreterVersion::new(0, 0, 0))
    );
}

#[test]
fn two_component_strings_parse_with_zero_patch() {
    assert_eq!(
        InterpreterVersion::from_str2("3.10"),
        Some(InterpreterVersion::new(3, 10, 0))
    );
}

#[test]
fn nine_digit_components_parse() {
    assert_eq!(
        InterpreterVersion::from_str2("999999999.1"),
        Some(InterpreterVersion::new(999999999, 1, 0))
    );
}

#[test]
fn malformed_version_strings_are_rejected() {
    assert_eq!(InterpreterVersion::from_str2(""), None);
    assert_eq!(InterpreterVersion::from_str2("3"), None);
    assert_eq!(InterpreterVersion::from_str2("3."), None);
    assert_eq!(InterpreterVersion::from_str2(".3"), None);
    assert_eq!(InterpreterVersion::from_str2("3..1"), None);
    assert_eq!(InterpreterVersion::from_str2("3.1.2.3"), None);
    assert_eq!(InterpreterVersion::from_str2("a.b"), None);
    assert_eq!(InterpreterVersion::from_str2("3.x"), None);
    assert_eq!(InterpreterVersion::from_str2("3 .1"), None);
    assert_eq!(InterpreterVersion::from_str2("1234567890.0"), None);
}

#[test]
fn comparison_is_lexicographic_on_all_three_parts() {
    let a = InterpreterVersion::new(2, 7, 5);
    let b = InterpreterVersion::new(3, 0, 0);
    let c = InterpreterVersion::new(3, 0, 1);
    assert!(a.lt(&b));
    assert!(b.lt(&c));
    assert!(!c.lt(&b));
    assert!(!b.lt(&b));
}
