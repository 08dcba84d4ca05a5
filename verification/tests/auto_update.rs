use dev_tools::auto_update::{is_newer_version, parse_version};

#[test]
fn test_is_newer_basic() {
    assert!(is_newer_version("0.1.0", "0.2.0"));
    assert!(is_newer_version("0.1.0", "1.0.0"));
    assert!(!is_newer_version("0.1.0", "0.1.0"));
    assert!(!is_newer_version("0.2.0", "0.1.0"));
}

#[test]
fn test_is_newer_with_v_prefix() {
    assert!(is_newer_version("0.1.0", "v0.2.0"));
    assert!(is_newer_version("v0.1.0", "v0.2.0"));
    assert!(!is_newer_version("v0.1.0", "v0.1.0"));
}

#[test]
fn test_is_newer_different_length() {
    assert!(is_newer_version("0.1", "0.1.1"));
    assert!(is_newer_version("1.2.3", "1.2.3.1"));
    assert!(!is_newer_version("1.2", "1.2.0"));
}

#[test]
fn test_is_newer_invalid_input() {
    assert!(!is_newer_version("0.1.0", "abc"));
    assert!(!is_newer_version("abc", "0.1.0"));
}

#[test]
fn test_is_newer_higher_major() {
    assert!(is_newer_version("0.9.9", "1.0.0"));
    assert!(!is_newer_version("1.0.0", "0.9.9"));
}

#[test]
fn test_is_newer_same_version_different_segments() {
    assert!(!is_newer_version("1.2.3", "1.2.3"));
    assert!(is_newer_version("1.2.3", "1.2.4"));
    assert!(!is_newer_version("1.2.4", "1.2.3"));
}

#[test]
fn parse_version_reads_segments() {
    assert_eq!(parse_version("v1.2.3"), vec![1, 2, 3]);
    assert_eq!(parse_version("10.0"), vec![10, 0]);
}

#[test]
fn parse_version_skips_bad_segments() {
    assert_eq!(parse_version("abc"), Vec::<u64>::new());
    assert_eq!(parse_version("1.x.3"), vec![1, 3]);
}

#[test]
fn newer_is_asymmetric_on_examples() {
    let pairs = [("1.0", "1.1"), ("2.0.0", "10.0.0"), ("0.0.1", "0.0.1")];
    for (a, b) in pairs.iter() {
        assert!(!(is_newer_version(a, b) && is_newer_version(b, a)));
    }
}

#[test]
fn trailing_zero_and_v_prefix_do_not_change_comparison() {
    for (a, b) in [("1.2", "1.3"), ("1.3", "1.2"), ("1.2", "1.2"), ("2", "10"), ("0.9.9", "1")] {
        let a0 = format!("{}.0", a);
        let b0 = format!("{}.0", b);
        let va = format!("v{}", a);
        let vb = format!("v{}", b);
        let base = is_newer_version(a, b);
        assert_eq!(is_newer_version(&a0, b), base);
        assert_eq!(is_newer_version(a, &b0), base);
        assert_eq!(is_newer_version(&va, b), base);
        assert_eq!(is_newer_version(a, &vb), base);
    }
    assert!(is_newer_version("1.2", "v1.3.0"));
    assert!(!is_newer_version("v1.3.0", "1.3"));
}
