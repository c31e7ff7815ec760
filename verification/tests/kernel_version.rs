use tcp_codec::kernel_version::KernelVersion;

#[test]
fn test_parse_valid() {
    assert_eq!(
        KernelVersion::parse("5.10.0".to_string()).unwrap(),
        KernelVersion::new(5, 10, 0),
    );
    assert_eq!(
        KernelVersion::parse("5.10.50".to_string()).unwrap(),
        KernelVersion::new(5, 10, 50)
    );
    assert_eq!(
        KernelVersion::parse("5.10.50-38.132.amzn2int.x86_64".to_string()).unwrap(),
        KernelVersion::new(5, 10, 50)
    );
}

#[test]
fn test_parse_invalid() {
    KernelVersion::parse("".to_string()).unwrap_err();
    KernelVersion::parse("ffff".to_string()).unwrap_err();
    KernelVersion::parse("ffff.55.0".to_string()).unwrap_err();
    KernelVersion::parse("5.10.".to_string()).unwrap_err();
    KernelVersion::parse("5.0".to_string()).unwrap_err();
    KernelVersion::parse("5.0fff".to_string()).unwrap_err();
}

#[test]
fn test_cmp() {
    // Comparing major.
    assert!(KernelVersion::new(4, 0, 0) < KernelVersion::new(5, 10, 15));
    assert!(KernelVersion::new(4, 0, 0) > KernelVersion::new(3, 10, 15));

    // Comparing minor.
    assert!(KernelVersion::new(5, 0, 20) < KernelVersion::new(5, 10, 15));
    assert!(KernelVersion::new(5, 20, 20) > KernelVersion::new(5, 10, 15));
    assert!(KernelVersion::new(5, 100, 20) > KernelVersion::new(5, 20, 0));

    // Comparing patch.
    assert!(KernelVersion::new(5, 0, 20) < KernelVersion::new(5, 10, 15));
    assert!(KernelVersion::new(5, 0, 20) > KernelVersion::new(4, 10, 15));

    // Equal.
    assert!(KernelVersion::new(5, 0, 20) == KernelVersion::new(5, 0, 20));
    assert!(KernelVersion::new(5, 0, 20) >= KernelVersion::new(5, 0, 20));
    assert!(KernelVersion::new(5, 0, 20) <= KernelVersion::new(5, 0, 20));
}

#[test]
fn test_display() {
    assert_eq!(KernelVersion::new(5, 8, 80).to_version_string(), "5.8.80");
}

#[test]
fn test_parse_component_bounds() {
    // The largest 16-bit component parses; one past it does not.
    assert_eq!(
        KernelVersion::parse("65535.0.0".to_string()).unwrap(),
        KernelVersion::new(65535, 0, 0)
    );
    KernelVersion::parse("65536.0.0".to_string()).unwrap_err();
}

#[test]
fn test_display_zero() {
    assert_eq!(KernelVersion::new(0, 0, 0).to_version_string(), "0.0.0");
    assert_eq!(KernelVersion::new(10, 0, 305).to_version_string(), "10.0.305");
}
