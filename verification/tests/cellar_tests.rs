use buckets::cellar::{
    best_installed, get_installation, installed_marker, installed_versions, lookup_tombstone_path,
    symlink_plan, symlink_target, version_from_dir_name,
};
use buckets::config::Config;
use buckets::keyed::KeyedMap;
use buckets::types::Package;
use buckets::version::{sort_newest_first, PkgVersion, VersionConstraint};

fn v(s: &str) -> PkgVersion {
    PkgVersion::parse(s).unwrap()
}

fn config() -> Config {
    Config {
        dist_url: "https://dist.pkgx.dev".to_string(),
        cache_dir: "/c".to_string(),
        worktree_dir: None,
        platform: "linux/x86-64".to_string(),
        pantry_overrides: KeyedMap::new(),
    }
}

#[test]
fn test_version_sorting() {
    let v1 = v("20.11.0");
    let v2 = v("20.10.0");
    let v3 = v("21.0.0");
    let mut versions = vec![v2.clone(), v3.clone(), v1.clone()];
    sort_newest_first(&mut versions);
    assert_eq!(versions, vec![v3, v1, v2]);
}

#[test]
fn test_symlink_target_format() {
    let ver = v("20.11.0");
    assert_eq!(symlink_target(&ver), "v20.11.0");
}

#[test]
fn installed_versions_skip_links_and_strays() {
    let entries = vec![
        ("v20.10.0".to_string(), false),
        ("v*".to_string(), true),
        ("v20".to_string(), true),
        ("v21.0.0".to_string(), false),
        (".no-such-project".to_string(), false),
        ("v20.11.0".to_string(), false),
    ];
    let vs = installed_versions(&entries);
    let texts: Vec<String> = vs.iter().map(|x| x.to_text()).collect();
    assert_eq!(texts, vec!["21.0.0", "20.11.0", "20.10.0"]);
    let req = VersionConstraint::parse("^20").unwrap();
    assert_eq!(best_installed(&vs, &req).unwrap().to_text(), "20.11.0");
    let none = VersionConstraint::parse("^22").unwrap();
    assert!(best_installed(&vs, &none).is_none());
}

#[test]
fn symlinks_point_at_newest_of_each_range() {
    let all = vec![v("21.0.0"), v("20.11.0"), v("20.10.0")];
    let plan = symlink_plan(&all, &v("20.10.0"));
    let expect: Vec<(String, String)> = vec![
        ("v*".to_string(), "v21.0.0".to_string()),
        ("v20".to_string(), "v20.11.0".to_string()),
        ("v20.10".to_string(), "v20.10.0".to_string()),
    ];
    assert_eq!(plan, expect);
    assert!(symlink_plan(&vec![], &v("1.0.0")).is_empty());
}

#[test]
fn link_names_read_back_as_versions() {
    assert_eq!(version_from_dir_name("v20.11.0").unwrap().to_text(), "20.11.0");
    assert!(version_from_dir_name("20.11.0").is_none());
    assert!(version_from_dir_name("v*").is_none());
}

#[test]
fn cache_paths_of_installations() {
    let config = config();
    let pkg = Package { project: "nodejs.org".to_string(), version: v("20.11.0") };
    let inst = get_installation(&config, &pkg);
    assert_eq!(inst.path, "/c/nodejs.org/v20.11.0");
    assert_eq!(inst.pkg.project, "nodejs.org");
    assert_eq!(installed_marker(&config, "nodejs.org", &pkg.version), "/c/nodejs.org/v20.11.0/bin");
    assert_eq!(lookup_tombstone_path(&config, "nodejs.org"), "/c/nodejs.org/.no-such-project");
}

#[test]
fn marking_one_tombstone_leaves_other_projects_alone() {
    let config = config();
    let mut files = std::collections::HashSet::new();
    files.insert(lookup_tombstone_path(&config, "nodejs.org"));
    assert!(files.contains(&lookup_tombstone_path(&config, "nodejs.org")));
    assert!(!files.contains(&lookup_tombstone_path(&config, "python.org")));
    assert!(!files.contains(&lookup_tombstone_path(&config, "cargo:nodejs.org")));
    assert_eq!(lookup_tombstone_path(&config, "cargo:ripgrep"), "/c/cargo/ripgrep/.no-such-project");
}
