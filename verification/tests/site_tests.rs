use buckets::config::Config;
use buckets::keyed::KeyedMap;
use buckets::gui::DisplayFiles;
use buckets::site::{
    browser_missing_message, default_browser, persistent_storage_dir, site_host, site_launch, storage_plan, SiteError,
    StoragePlan,
};

fn config(cache_dir: &str) -> Config {
    Config {
        dist_url: "https://dist.pkgx.dev".to_string(),
        cache_dir: cache_dir.to_string(),
        worktree_dir: None,
        platform: "linux/x86-64".to_string(),
        pantry_overrides: KeyedMap::new(),
    }
}

#[test]
fn resolve_extracts_host() {
    assert_eq!(site_host("https://example.com/page").unwrap(), "example.com");
}

#[test]
fn resolve_extracts_host_with_port() {
    assert_eq!(site_host("http://localhost:8080/").unwrap(), "localhost");
}

#[test]
fn resolve_extracts_ipv6_host() {
    assert_eq!(site_host("http://[::1]:8080/").unwrap(), "[::1]");
}

#[test]
fn resolve_rejects_invalid_url() {
    let result = site_host("not a url");
    assert!(result.is_err());
    assert_eq!(result.unwrap_err().message("not a url"), "Invalid URL: not a url");
}

#[test]
fn url_without_host_is_refused() {
    match site_host("data:text/plain,hi") {
        Err(SiteError::NoHost) => {}
        other => panic!("expected NoHost, got {other:?}"),
    }
}

#[test]
fn storage_dir_is_host_keyed_under_cache_dir() {
    let config = config("/tmp/cache");
    assert_eq!(persistent_storage_dir(&config, "example.com"), "/tmp/cache/sites/example.com");
    match storage_plan(&config, "example.com", true) {
        StoragePlan::Temporary { prefix } => assert_eq!(prefix, "buckets-site-example.com-"),
        other => panic!("expected a temporary dir, got {other:?}"),
    }
    match storage_plan(&config, "example.com", false) {
        StoragePlan::Persistent(d) => assert_eq!(d, "/tmp/cache/sites/example.com"),
        other => panic!("expected a persistent dir, got {other:?}"),
    }
}

#[test]
fn the_default_browser_depends_on_gui() {
    assert_eq!(default_browser(true), "super-surfer");
    assert_eq!(default_browser(false), "surfer");
    assert_eq!(
        browser_missing_message(false),
        "'surfer' not found on PATH. Build it first: cargo build --release -p surfer --features cli (in surfer-browser)"
    );
}

#[test]
fn site_launch_grants_storage_browser_and_display() {
    let extra = vec!["--dump".to_string()];
    let text = site_launch("https://example.com", &extra, "/c/sites/example.com", "/opt/surfer", None, false);
    assert_eq!(text.args, vec!["https://example.com", "--dump"]);
    assert_eq!(text.env.len(), 0);
    assert_eq!(text.profile.project_dir.as_deref(), Some("/c/sites/example.com"));
    assert_eq!(text.profile.extra_ro_binds, vec!["/opt/surfer"]);
    assert!(text.profile.allow_network);
    let d = DisplayFiles { display: ":99".to_string(), socket: "/tmp/.X11-unix/X99".to_string(), xauthority: "/tmp/xa".to_string() };
    let gui = site_launch("https://example.com", &vec![], "/tmp/s", "/opt/surfer", Some(&d), true);
    assert_eq!(gui.args, vec!["https://example.com"]);
    assert_eq!(gui.env.get("DISPLAY").unwrap(), ":99");
    assert_eq!(gui.env.get("XAUTHORITY").unwrap(), "/tmp/xa");
    assert_eq!(gui.profile.extra_ro_binds, vec!["/opt/surfer", "/tmp/.X11-unix/X99", "/tmp/xa"]);
    assert!(!gui.profile.allow_network);
}
