use cisak::version::{is_version_newer, rank_digits, strip_leading_v, version_components, Rank};

#[test]
fn newer_patch_release() {
    assert!(is_version_newer("v1.4.3", "v1.4.2"));
    assert!(!is_version_newer("v1.4.2", "v1.4.3"));
}

#[test]
fn numeric_not_lexical_order() {
    assert!(is_version_newer("v1.10.0", "v1.9.9"));
    assert!(!is_version_newer("v1.9.9", "v1.10.0"));
}

#[test]
fn same_version_is_not_newer() {
    assert!(!is_version_newer("v1.36.1", "v1.36.1"));
    assert!(!is_version_newer("1.36.1", "v1.36.1"));
}

#[test]
fn leading_v_is_ignored() {
    assert!(is_version_newer("v2.0", "1.9"));
    assert!(is_version_newer("2.0", "v1.9"));
    assert!(is_version_newer("vv2.0", "1.9"));
}

#[test]
fn missing_components_count_as_zero() {
    assert!(!is_version_newer("1.2", "1.2.0"));
    assert!(!is_version_newer("1.2.0", "1.2"));
    assert!(is_version_newer("1.2.1", "1.2"));
    assert!(!is_version_newer("1.2", "1.2.1"));
}

#[test]
fn unparsable_components_count_as_zero() {
    assert!(!is_version_newer("1.2.0-rc1", "1.2.0"));
    assert!(is_version_newer("1.3.0-rc1", "1.2.9"));
    assert!(!is_version_newer("1.x", "1.0"));
    assert!(is_version_newer("1.1", "1.x"));
}

#[test]
fn order_is_asymmetric_and_transitive_on_examples() {
    let a = "v3.1.0";
    let b = "v2.10.4";
    let c = "v2.9.12";
    assert!(is_version_newer(a, b) && !is_version_newer(b, a));
    assert!(is_version_newer(b, c));
    assert!(is_version_newer(a, c));
}

fn digits(s: &str) -> Vec<String> {
    version_components(s).into_iter().map(|d| d.into_iter().collect()).collect()
}

#[test]
fn components_keep_their_digits() {
    assert_eq!(digits("v1.36.1"), vec!["1", "36", "1"]);
    assert_eq!(digits(""), vec![""]);
    assert_eq!(digits("1..2"), vec!["1", "", "2"]);
    assert_eq!(digits("+7.-3"), vec!["7", ""]);
    assert_eq!(digits("+"), vec![""]);
    assert_eq!(digits("1.2.0-rc1"), vec!["1", "2", ""]);
    assert_eq!(digits("١.2"), vec!["", "2"]);
    assert_eq!(digits("18446744073709551616"), vec!["18446744073709551616"]);
}

#[test]
fn components_beyond_u64_compare_numerically() {
    assert!(is_version_newer("18446744073709551616", "1"));
    assert!(!is_version_newer("1", "18446744073709551616"));
    assert!(is_version_newer("18446744073709551616", "18446744073709551615"));
    assert!(is_version_newer("1.99999999999999999999999", "1.99999999999999999999998"));
    assert!(!is_version_newer("99999999999999999999.5", "99999999999999999999.5"));
    assert!(is_version_newer("100000000000000000000", "99999999999999999999"));
}

#[test]
fn leading_zeros_do_not_change_a_component() {
    assert!(!is_version_newer("1.01", "1.1"));
    assert!(!is_version_newer("1.1", "1.001"));
    assert!(is_version_newer("1.010", "1.9"));
    assert!(!is_version_newer("000000000000000000000000001", "1"));
}

#[test]
fn strip_leading_v_removes_every_leading_v() {
    assert_eq!(strip_leading_v("v2.3.1"), "2.3.1");
    assert_eq!(strip_leading_v("vv2"), "2");
    assert_eq!(strip_leading_v("2v"), "2v");
    assert_eq!(strip_leading_v(""), "");
}

#[test]
fn trailing_zero_component_changes_nothing() {
    for (a, b) in [("1.2", "1.1"), ("1.2", "1.3"), ("v2", "2.0.1"), ("", "0")] {
        let a0 = format!("{a}.0");
        assert_eq!(is_version_newer(&a0, b), is_version_newer(a, b));
        assert_eq!(is_version_newer(b, &a0), is_version_newer(b, a));
    }
}

#[test]
fn rank_digits_compares_numbers_of_any_length() {
    let d = |s: &str| s.chars().collect::<Vec<char>>();
    assert_eq!(rank_digits(&d("12"), &d("9")), Rank::Above);
    assert_eq!(rank_digits(&d("0012"), &d("12")), Rank::Same);
    assert_eq!(rank_digits(&d(""), &d("0")), Rank::Same);
    assert_eq!(rank_digits(&d("123456789012345678901234"), &d("123456789012345678901235")), Rank::Below);
}
