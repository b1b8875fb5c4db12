use buckets::types::{parse_specs, platform_prefix_for, HostArch, HostOs, PackageReq, PackageReqError};
use buckets::version::PkgVersion;

fn v(s: &str) -> PkgVersion {
    PkgVersion::parse(s).unwrap()
}

#[test]
fn test_parse_node_at_20() {
    let req = PackageReq::parse("node@20").unwrap();
    assert_eq!(req.project, "node");
    assert!(req.matches(&v("20.11.0")));
    assert!(!req.matches(&v("21.0.0")));
}

#[test]
fn test_parse_bare_name_is_star() {
    let req = PackageReq::parse("node").unwrap();
    assert_eq!(req.project, "node");
    assert!(req.constraint.is_star());
}

#[test]
fn test_parse_latest() {
    let req = PackageReq::parse("rust@latest").unwrap();
    assert_eq!(req.project, "rust");
    assert!(req.constraint.is_star());
}

#[test]
fn test_parse_exact() {
    let req = PackageReq::parse("python@=3.11.0").unwrap();
    assert_eq!(req.project, "python");
    assert!(req.matches(&v("3.11.0")));
    assert!(!req.matches(&v("3.11.1")));
}

#[test]
fn test_parse_caret() {
    let req = PackageReq::parse("go@^1.22").unwrap();
    assert_eq!(req.project, "go");
    assert!(req.matches(&v("1.22.0")));
    assert!(req.matches(&v("1.23.0")));
    assert!(!req.matches(&v("2.0.0")));
}

#[test]
fn test_parse_greater_equal() {
    let req = PackageReq::parse("node@>=18").unwrap();
    assert!(req.matches(&v("18.0.0")));
    assert!(req.matches(&v("20.0.0")));
    assert!(!req.matches(&v("17.0.0")));
}

#[test]
fn test_parse_tilde() {
    let req = PackageReq::parse("rust@~1.70").unwrap();
    assert!(req.matches(&v("1.70.0")));
    assert!(req.matches(&v("1.70.5")));
    assert!(!req.matches(&v("1.71.0")));
}

#[test]
fn test_parse_tolerates_v_prefix() {
    let _result = PackageReq::parse("node@v20");
}

#[test]
fn bare_numbers_become_caret_requirements() {
    let req = PackageReq::parse("  python@3.11 ").unwrap();
    assert_eq!(req.project, "python");
    assert_eq!(req.constraint.text(), "^3.11");
    let star = PackageReq::parse("node*").unwrap();
    assert_eq!(star.project, "node");
    assert_eq!(star.constraint.text(), "*");
    assert!(PackageReq::parse("node@>>1").is_err());
}

#[test]
fn test_detect_platform() {
    for os in [HostOs::Linux, HostOs::MacOs, HostOs::Windows] {
        for arch in [HostArch::Amd64, HostArch::Aarch64] {
            let p = platform_prefix_for(os, arch);
            assert!(p.contains('/'));
            let parts: Vec<&str> = p.split('/').collect();
            assert_eq!(parts.len(), 2);
            assert!(!parts[0].is_empty());
            assert!(!parts[1].is_empty());
        }
    }
    assert_eq!(platform_prefix_for(HostOs::Linux, HostArch::Amd64), "linux/x86-64");
    assert_eq!(platform_prefix_for(HostOs::MacOs, HostArch::Aarch64), "darwin/aarch64");
}

#[test]
fn non_ascii_word_characters_belong_to_the_constraint() {
    // `é` is a `\w` character, so `@é` is a constraint suffix, which semver refuses.
    assert!(PackageReq::parse("node@é").is_err());
    // `→` is not, so the whole spec is the project name.
    let req = PackageReq::parse("node@→").unwrap();
    assert_eq!(req.project, "node@→");
    assert!(req.constraint.is_star());
}

#[test]
fn bare_full_versions_become_exact_requirements() {
    let req = PackageReq::parse("python@3.11.0").unwrap();
    assert_eq!(req.project, "python");
    assert_eq!(req.constraint.text(), "=3.11.0");
    assert!(req.matches(&v("3.11.0")));
    assert!(!req.matches(&v("3.11.1")));
    let partial = PackageReq::parse("node@20").unwrap();
    assert_eq!(partial.constraint.text(), "^20");
}

#[test]
fn try_parse_refuses_what_the_spec_pattern_does_not_take() {
    assert!(matches!(PackageReq::try_parse(""), Err(PackageReqError::Unparsable)));
    assert!(matches!(PackageReq::try_parse("   "), Err(PackageReqError::Unparsable)));
    assert!(matches!(PackageReq::try_parse("node\npython"), Err(PackageReqError::Unparsable)));
    let trailing = PackageReq::try_parse("node\n").unwrap();
    assert_eq!(trailing.project, "node");
    assert_eq!(trailing.constraint.text(), "*");
    assert!(matches!(PackageReq::try_parse("node@>>1"), Err(PackageReqError::InvalidConstraint(_))));
}

#[test]
fn every_spec_is_parsed_and_the_first_refusal_is_reported() {
    let ok = parse_specs(&vec!["node@20".to_string(), " python@3.11.0".to_string()]).unwrap();
    assert_eq!(ok.len(), 2);
    assert_eq!(ok[0].project, "node");
    assert_eq!(ok[1].constraint.text(), "=3.11.0");
    let bad = vec!["node@20".to_string(), "go@>>1".to_string(), "".to_string()];
    match parse_specs(&bad) {
        Err((1, PackageReqError::InvalidConstraint(_))) => {}
        other => panic!("unexpected {:?}", other.map(|v| v.len())),
    }
    match parse_specs(&vec!["node".to_string(), " ".to_string()]) {
        Err((1, PackageReqError::Unparsable)) => {}
        other => panic!("unexpected {:?}", other.map(|v| v.len())),
    }
}
