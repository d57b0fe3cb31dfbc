//! Version specs.

use beamtalk_uat::{requested_exact_version, VersionSpec};

#[test]
fn version_spec_parsing() {
    assert_eq!(VersionSpec::parse(""), VersionSpec::Latest);
    assert_eq!(VersionSpec::parse("latest"), VersionSpec::Latest);
    assert_eq!(VersionSpec::parse("nightly"), VersionSpec::Nightly);
    assert_eq!(VersionSpec::parse("v0.4.0"), VersionSpec::Exact("0.4.0".into()));
    assert_eq!(VersionSpec::parse("0.4.0"), VersionSpec::Exact("0.4.0".into()));
}

#[test]
fn version_spec_tags() {
    assert_eq!(VersionSpec::Latest.tag(), None);
    assert_eq!(VersionSpec::Nightly.tag(), Some("nightly".into()));
    assert_eq!(VersionSpec::Exact("0.4.0".into()).tag(), Some("v0.4.0".into()));
}

#[test]
fn whitespace_around_a_spec_is_ignored() {
    assert_eq!(VersionSpec::parse(" \t\n"), VersionSpec::Latest);
    assert_eq!(VersionSpec::parse(" nightly\n"), VersionSpec::Nightly);
    assert_eq!(VersionSpec::parse("\u{3000}v1.2.3 "), VersionSpec::Exact("1.2.3".into()));
}

#[test]
fn the_edge_release_is_rolling() {
    let edge = VersionSpec::parse("edge");
    assert_eq!(edge, VersionSpec::Edge);
    assert_eq!(edge.tag(), Some("edge".to_string()));
    assert_eq!(edge.cache_key(), "edge");
    assert_eq!(requested_exact_version(Some("edge")), None);
}

#[test]
fn every_leading_v_is_dropped() {
    assert_eq!(VersionSpec::parse("vv1"), VersionSpec::Exact("1".into()));
    assert_eq!(VersionSpec::parse("v"), VersionSpec::Exact("".into()));
    assert_eq!(VersionSpec::parse("vnightly"), VersionSpec::Exact("nightly".into()));
    assert_eq!(VersionSpec::parse("Latest"), VersionSpec::Exact("Latest".into()));
}

#[test]
fn cache_keys_parse_back() {
    for s in ["", "latest", "nightly", "edge", "0.4.0", "v0.4.0", "vvv", "v 1"] {
        let spec = VersionSpec::parse(s);
        assert_eq!(VersionSpec::parse(&spec.cache_key()), spec, "{s:?}");
    }
}

#[test]
fn cache_keys_are_apart() {
    assert_eq!(VersionSpec::Latest.cache_key(), "latest");
    assert_eq!(VersionSpec::Nightly.cache_key(), "nightly");
    assert_eq!(VersionSpec::Exact("latest".into()).cache_key(), "vlatest");
    assert_eq!(VersionSpec::Exact("0.4.0".into()).cache_key(), "v0.4.0");
}

#[test]
fn the_environment_selects_the_version() {
    assert_eq!(VersionSpec::from_env(None), VersionSpec::Latest);
    assert_eq!(VersionSpec::from_env(Some("nightly")), VersionSpec::Nightly);
    assert_eq!(requested_exact_version(Some("v0.4.0")), Some("0.4.0".to_string()));
    assert_eq!(requested_exact_version(Some("nightly")), None);
    assert_eq!(requested_exact_version(Some("")), None);
    assert_eq!(requested_exact_version(None), None);
}
