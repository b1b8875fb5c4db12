use buckets::config::{sanitize_project_name, Config};
use buckets::keyed::KeyedMap;

fn config(cache_dir: &str) -> Config {
    Config {
        dist_url: "https://dist.pkgx.dev".to_string(),
        cache_dir: cache_dir.to_string(),
        worktree_dir: None,
        platform: "linux/x86-64".to_string(),
        pantry_overrides: KeyedMap::new(),
    }
}

#[test]
fn test_platform_url() {
    let config = config("/tmp/test");
    assert_eq!(
        config.versions_url("nodejs.org"),
        "https://dist.pkgx.dev/nodejs.org/linux/x86-64/versions.txt"
    );
    assert_eq!(
        config.bottle_url("nodejs.org", "20.11.0"),
        "https://dist.pkgx.dev/nodejs.org/linux/x86-64/v20.11.0.tar.xz"
    );
}

#[test]
fn cache_paths_sanitize_project_names() {
    let config = config("/c");
    assert_eq!(config.project_dir("nodejs.org"), "/c/nodejs.org");
    assert_eq!(config.version_dir("nodejs.org", "20.11.0"), "/c/nodejs.org/v20.11.0");
    assert_eq!(sanitize_project_name("cargo:ripgrep"), "cargo/ripgrep");
    assert_eq!(sanitize_project_name("path:///a/b"), "path/a/b");
    assert_eq!(sanitize_project_name("plain"), "plain");
}
