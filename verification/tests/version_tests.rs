use mineplace3d_launcher::version::{parse_version, Version, VersionParseError, VersionStage};

fn v(major: u32, minor: u32, patch: u32, stage: VersionStage, build: u32) -> Version {
    Version { major, minor, patch, stage, build }
}

#[test]
fn default_version_is_release_0_2_2() {
    let d = Version::default();
    assert_eq!(d, v(0, 2, 2, VersionStage::Release, 0));
    assert_eq!(d.to_string(), "0.2.2");
    assert_eq!(VersionStage::default(), VersionStage::Release);
}

#[test]
fn parses_plain_version() {
    assert_eq!(parse_version("1.2.3"), Ok(v(1, 2, 3, VersionStage::Release, 0)));
    assert_eq!(parse_version("0.0.0"), Ok(v(0, 0, 0, VersionStage::Release, 0)));
    assert_eq!(parse_version("007.08.9"), Ok(v(7, 8, 9, VersionStage::Release, 0)));
}

#[test]
fn parses_stages_and_builds() {
    assert_eq!(parse_version("0.3.0-alpha.1"), Ok(v(0, 3, 0, VersionStage::Alpha, 1)));
    assert_eq!(parse_version("1.2.3-beta"), Ok(v(1, 2, 3, VersionStage::Beta, 0)));
    assert_eq!(parse_version("1.2.3-release.4"), Ok(v(1, 2, 3, VersionStage::Release, 4)));
    assert_eq!(parse_version("1.2.3-release"), Ok(v(1, 2, 3, VersionStage::Release, 0)));
}

#[test]
fn ignores_whitespace_and_leading_v() {
    assert_eq!(parse_version("  v0.3.0-alpha.1 \n"), Ok(v(0, 3, 0, VersionStage::Alpha, 1)));
    assert_eq!(parse_version("vvv1.2.3"), Ok(v(1, 2, 3, VersionStage::Release, 0)));
    assert_eq!(parse_version("\u{3000}\t1.2.3\u{2009}"), Ok(v(1, 2, 3, VersionStage::Release, 0)));
}

#[test]
fn ignores_what_follows_the_fields_it_reads() {
    assert_eq!(parse_version("1.2.3-alpha.1.2"), Ok(v(1, 2, 3, VersionStage::Alpha, 1)));
    assert_eq!(parse_version("1.2.3-alpha-foo"), Ok(v(1, 2, 3, VersionStage::Alpha, 0)));
    assert_eq!(parse_version("+1.2.+3"), Ok(v(1, 2, 3, VersionStage::Release, 0)));
}

#[test]
fn reports_each_error() {
    assert_eq!(parse_version(""), Err(VersionParseError::Empty));
    assert_eq!(parse_version("   "), Err(VersionParseError::Empty));
    assert_eq!(parse_version(" vv "), Err(VersionParseError::Empty));
    assert_eq!(parse_version("1.2"), Err(VersionParseError::Format));
    assert_eq!(parse_version("1.2.3.4"), Err(VersionParseError::Format));
    assert_eq!(parse_version("-1.2.3"), Err(VersionParseError::Format));
    assert_eq!(parse_version("a.2.3"), Err(VersionParseError::Major));
    assert_eq!(parse_version("4294967296.0.0"), Err(VersionParseError::Major));
    assert_eq!(parse_version("1..3"), Err(VersionParseError::Minor));
    assert_eq!(parse_version("1.2.c"), Err(VersionParseError::Patch));
    assert_eq!(parse_version("1.2. 3"), Err(VersionParseError::Patch));
    assert_eq!(parse_version("1.2.3-gamma"), Err(VersionParseError::Stage));
    assert_eq!(parse_version("1.2.3-"), Err(VersionParseError::Stage));
    assert_eq!(parse_version("1.2.3-Alpha"), Err(VersionParseError::Stage));
    assert_eq!(parse_version("1.2.3-alpha.x"), Err(VersionParseError::Build));
    assert_eq!(parse_version("1.2.3-beta."), Err(VersionParseError::Build));
}

#[test]
fn from_str_reports_messages() {
    let cases = [
        ("", "Version string cannot be empty"),
        ("1.2", "Version must be in the format major.minor.patch"),
        ("x.2.3", "Invalid major version"),
        ("1.x.3", "Invalid minor version"),
        ("1.2.x", "Invalid patch version"),
        ("1.2.3-rc", "Invalid version stage"),
        ("1.2.3-beta.b", "Invalid build number"),
    ];
    for (input, message) in cases {
        assert_eq!(Version::from_str(input), Err(message.to_string()));
        assert_eq!(input.parse::<Version>(), Err(message.to_string()));
    }
    assert_eq!("v1.0.0".parse::<Version>(), Ok(v(1, 0, 0, VersionStage::Release, 0)));
}

#[test]
fn writes_versions() {
    assert_eq!(v(1, 2, 3, VersionStage::Release, 0).to_string(), "1.2.3");
    assert_eq!(v(1, 2, 3, VersionStage::Alpha, 0).to_string(), "1.2.3-alpha");
    assert_eq!(v(1, 2, 3, VersionStage::Beta, 2).to_string(), "1.2.3-beta.2");
    assert_eq!(v(1, 2, 3, VersionStage::Release, 5).to_string(), "1.2.3-release.5");
    assert_eq!(v(10, 0, 4294967295, VersionStage::Alpha, 99).to_string(), "10.0.4294967295-alpha.99");
    assert_eq!(v(0, 3, 0, VersionStage::Alpha, 1).tag(), "v0.3.0-alpha.1");
}

#[test]
fn reading_a_written_version_gives_it_back() {
    let stages = [VersionStage::Alpha, VersionStage::Beta, VersionStage::Release];
    let numbers = [0u32, 1, 9, 10, 99, 100, 12345, u32::MAX];
    for &stage in &stages {
        for &a in &numbers {
            for &b in &numbers {
                let version = v(a, b, a ^ b, stage, b);
                assert_eq!(parse_version(&version.to_string()), Ok(version));
                assert_eq!(parse_version(&version.tag()), Ok(version));
            }
        }
    }
}
