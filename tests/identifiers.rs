use cargo_review_deps::package_id::{PackageId, PackageIdError};
use cargo_review_deps::commands::format_manifest;
use cargo_review_deps::version::Version;

#[test]
fn parse_splits_name_and_version() {
    let id = PackageId::parse("rand:0.6.0").ok().unwrap();
    assert_eq!(id.name, "rand");
    assert_eq!(id.version.major, 0);
    assert_eq!(id.version.minor, 6);
    assert_eq!(id.version.patch, 0);
    assert_eq!(id.version.pre, "");
    assert_eq!(id.version.build, "");
}

#[test]
fn parse_without_colon_is_invalid_format() {
    match PackageId::parse("rand-0.6.1") {
        Err(PackageIdError::InvalidFormat { text }) => assert_eq!(text, "rand-0.6.1"),
        other => panic!("unexpected {:?}", other),
    }
}

#[test]
fn parse_with_empty_name_is_invalid_format() {
    assert!(matches!(
        PackageId::parse(":1.0.0"),
        Err(PackageIdError::InvalidFormat { .. })
    ));
}

#[test]
fn parse_with_bad_version_is_invalid_version() {
    match PackageId::parse("rand:0.6") {
        Err(PackageIdError::InvalidVersion { text, reason }) => {
            assert_eq!(text, "rand:0.6");
            assert!(!reason.is_empty());
            let err = PackageIdError::InvalidVersion { text, reason: reason.clone() };
            assert_eq!(
                err.message(),
                format!(
                    "invalid package specification: \"rand:0.6\"; expected \"name:x.y.z\": {}",
                    reason
                )
            );
        }
        other => panic!("unexpected {:?}", other),
    }
    assert!(matches!(
        PackageId::parse("rand:01.0.0"),
        Err(PackageIdError::InvalidVersion { .. })
    ));
}

#[test]
fn parse_splits_at_first_colon() {
    // Everything after the first colon is the version, so a second colon
    // makes the version invalid.
    assert!(matches!(
        PackageId::parse("a:b:1.0.0"),
        Err(PackageIdError::InvalidVersion { .. })
    ));
}

#[test]
fn parse_keeps_pre_release_and_build() {
    let id = PackageId::parse("serde:1.0.0-alpha.1+build.5").ok().unwrap();
    assert_eq!(id.version.pre, "alpha.1");
    assert_eq!(id.version.build, "build.5");
    assert_eq!(id.to_text(), "serde:1.0.0-alpha.1+build.5");
}

#[test]
fn text_round_trips_through_parse() {
    for text in ["rand:0.6.0", "thread_local:0.3.4", "a:10.20.30-rc.1", "x:0.0.1+meta"] {
        let id = PackageId::parse(text).ok().unwrap();
        let again = PackageId::parse(&id.to_text()).ok().unwrap();
        assert_eq!(again.to_text(), text);
        assert_eq!(again.name, id.name);
        assert_eq!(again.version.minor, id.version.minor);
    }
}

#[test]
fn version_text_is_canonical() {
    let v = Version {
        major: 18446744073709551615,
        minor: 0,
        patch: 7,
        pre: String::new(),
        build: "b".to_string(),
    };
    assert_eq!(v.to_text(), "18446744073709551615.0.7+b");
    assert!(Version::parse("1.2.3").is_ok());
    assert!(Version::parse(" 1.2.3").is_err());
    assert!(Version::parse("1.2.3-").is_err());
}

#[test]
fn invalid_format_message_quotes_text() {
    let err = PackageId::parse("rand").err().unwrap();
    assert_eq!(
        err.message(),
        "invalid package specification: \"rand\"; expected \"name:x.y.z\""
    );
}

#[test]
fn manifest_pins_exact_version() {
    let id = PackageId::parse("rand:0.6.1").ok().unwrap();
    let text = format_manifest(&id);
    assert!(text.contains("[dependencies]\nrand = \"=0.6.1\"\n"));
    assert!(text.contains("name = \"cargo-diff-temp-pkg\""));
}
