use csalt::version::{normalize_semver, pad_version, SemVer, VersionError};

#[test]
fn two_component_versions_are_padded() {
    let v = normalize_semver("3.15").unwrap();
    let v = v.parts();
    assert_eq!((v.major, v.minor, v.patch), (3, 15, 0));
    assert_eq!(v.to_text(), "3.15.0");
}

#[test]
fn one_component_versions_are_padded() {
    let v = normalize_semver(" 3 ").unwrap();
    let v = v.parts();
    assert_eq!(v.to_text(), "3.0.0");
    assert_eq!(pad_version(" 3 "), "3.0.0");
    assert_eq!(pad_version("3.28"), "3.28.0");
    assert_eq!(pad_version("3.28.1"), "3.28.1");
}

#[test]
fn full_versions_keep_pre_release_and_build() {
    let v = normalize_semver("3.28.1-rc1+abc").unwrap();
    let v = v.parts();
    assert_eq!((v.major, v.minor, v.patch), (3, 28, 1));
    assert_eq!(v.pre, "rc1");
    assert_eq!(v.build, "abc");
    assert_eq!(v.to_text(), "3.28.1-rc1+abc");
}

#[test]
fn ranges_are_refused() {
    for r in ["^3.15", "~3.15", "<4", ">3", "=3.15", "  >=3.15"] {
        assert!(matches!(normalize_semver(r), Err(VersionError::RangeNotSupported)));
    }
}

#[test]
fn garbage_is_refused() {
    assert!(matches!(normalize_semver("abc"), Err(VersionError::InvalidVersion)));
    assert!(matches!(normalize_semver("1.2.3.4"), Err(VersionError::InvalidVersion)));
    assert!(matches!(normalize_semver(""), Err(VersionError::InvalidVersion)));
}

#[test]
fn version_text_writes_numbers_in_decimal() {
    let v = SemVer {
        major: 10,
        minor: 0,
        patch: 1234567890,
        pre: String::new(),
        build: String::new(),
    };
    assert_eq!(v.to_text(), "10.0.1234567890");
}

#[test]
fn normalising_a_written_version_gives_it_back() {
    for text in ["3.15", " 3 ", "3.28.1-rc1+abc", "1.2.3-alpha.1", "10.0.1234567890"] {
        let v = normalize_semver(text).unwrap();
        let again = normalize_semver(&v.parts().to_text()).unwrap();
        let (a, b) = (v.parts(), again.parts());
        assert_eq!((a.major, a.minor, a.patch), (b.major, b.minor, b.patch));
        assert_eq!((&a.pre, &a.build), (&b.pre, &b.build));
        assert_eq!(b.to_text(), pad_version(text));
    }
}
