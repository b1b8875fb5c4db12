use buckets::inventory::{best_match, latest_version, parse_dist_version, versions_from_listing};
use buckets::version::{PkgVersion, VersionConstraint};

fn texts(vs: &[PkgVersion]) -> Vec<String> {
    vs.iter().map(|v| v.to_text()).collect()
}

#[test]
fn test_parse_dist_version_plain_semver() {
    let v = parse_dist_version("20.11.0").unwrap();
    assert!(v.same(&PkgVersion::parse("20.11.0").unwrap()));
}

#[test]
fn test_parse_dist_version_openssl_letter_suffix() {
    let v = parse_dist_version("1.1.1w").expect("should parse letter-suffixed version");
    assert_eq!((v.major(), v.minor(), v.patch()), (1, 1, 1));
    assert_eq!(v.build(), "w");
}

#[test]
fn test_parse_dist_version_rejects_garbage() {
    assert!(parse_dist_version("not-a-version").is_none());
}

#[test]
fn letter_suffix_needs_three_numbers_and_lower_case_letters() {
    assert!(parse_dist_version("1.1w").is_none());
    assert!(parse_dist_version("1.1.1W").is_none());
    assert!(parse_dist_version("1.1.1.1w").is_none());
    assert_eq!(parse_dist_version("3.0.2zz").unwrap().to_text(), "3.0.2+zz");
}

#[test]
fn listing_is_parsed_sorted_and_deduplicated() {
    let body = "20.10.0\n\n  21.0.0+linux+x86_64 \r\nnot a version\n20.11.0\n21.0.0\n1.1.1w\n";
    let vs = versions_from_listing(body);
    assert_eq!(texts(&vs), vec!["21.0.0", "20.11.0", "20.10.0", "1.1.1+w"]);
}

#[test]
fn best_match_skips_prereleases() {
    let vs = versions_from_listing("21.0.0-rc.1\n20.11.0\n19.0.0\n");
    let any = VersionConstraint::star();
    assert_eq!(best_match(&vs, &any).unwrap().to_text(), "20.11.0");
    let caret = VersionConstraint::parse("^19").unwrap();
    assert_eq!(best_match(&vs, &caret).unwrap().to_text(), "19.0.0");
    let none = VersionConstraint::parse("^30").unwrap();
    assert!(best_match(&vs, &none).is_none());
    assert_eq!(latest_version(&vs).unwrap().to_text(), "20.11.0");
    assert!(latest_version(&vec![]).is_none());
}
