use buckets::env::{compose_env, dedup_ordered, format_shell_exports, prepend_path, InstallDirs};
use buckets::keyed::KeyedMap;
use buckets::types::{Installation, Package, ResolvedEnvironment};
use buckets::version::PkgVersion;

fn strings(items: &[&str]) -> Vec<String> {
    items.iter().map(|s| s.to_string()).collect()
}

fn no_dirs() -> InstallDirs {
    InstallDirs {
        bin: false,
        sbin: false,
        lib: false,
        lib64: false,
        headers: false,
        man: false,
        share_man: false,
        share: false,
        share_pkgconfig: false,
        lib_pkgconfig: false,
    }
}

#[test]
fn test_compose_env_no_installations() {
    let env = compose_env(&vec![], &vec![], &KeyedMap::new(), false);
    assert_eq!(env.len(), 0);
}

#[test]
fn test_dedup_ordered() {
    let paths = strings(&["/a", "/b", "/a", "/c"]);
    let result = dedup_ordered(&paths);
    assert_eq!(result, vec!["/a", "/b", "/c"]);
}

#[test]
fn test_prepend_path_preserves_existing() {
    let mut env: KeyedMap<String> = KeyedMap::new();
    prepend_path(&mut env, "TEST_PATH", &strings(&["/new"]), None);
    assert_eq!(env.get("TEST_PATH").unwrap(), "/new");
}

#[test]
fn prepend_path_puts_entries_before_host_value() {
    let mut env: KeyedMap<String> = KeyedMap::new();
    prepend_path(&mut env, "PATH", &strings(&["/x/bin", "/y/bin"]), Some("/usr/bin"));
    assert_eq!(env.get("PATH").unwrap(), "/x/bin:/y/bin:/usr/bin");
    let mut env2: KeyedMap<String> = KeyedMap::new();
    prepend_path(&mut env2, "PATH", &strings(&["/x/bin"]), Some(""));
    assert_eq!(env2.get("PATH").unwrap(), "/x/bin");
    let mut env3: KeyedMap<String> = KeyedMap::new();
    prepend_path(&mut env3, "PATH", &vec![], Some("/usr/bin"));
    assert!(env3.get("PATH").is_none());
}

#[test]
fn test_format_shell_exports() {
    let mut vars: KeyedMap<String> = KeyedMap::new();
    vars.insert("PATH".to_string(), "/a:/b".to_string());
    let env = ResolvedEnvironment {
        installations: vec![],
        env: vars,
        entry: Package { project: "test".into(), version: PkgVersion::new(1, 0, 0) },
        all_packages: vec![],
    };
    let output = format_shell_exports(&env);
    assert!(output.contains("export PATH=\"/a:/b\""));
    assert_eq!(
        output,
        "# buckets environment\nexport PATH=\"/a:/b\"\n\n# PATH components:\n#   [0] /a\n#   [1] /b\n"
    );
}

#[test]
fn compose_env_maps_each_subdirectory_once() {
    let pkg = Package { project: "nodejs.org".into(), version: PkgVersion::new(20, 11, 0) };
    let inst = Installation { pkg, path: "/c/node/v20.11.0".to_string() };
    let pkg2 = Package { project: "nodejs.org".into(), version: PkgVersion::new(20, 11, 0) };
    let dup = Installation { pkg: pkg2, path: "/c/node/v20.11.0".to_string() };
    let mut d = no_dirs();
    d.bin = true;
    d.lib = true;
    d.headers = true;
    d.share = true;
    d.share_man = true;
    let mut host: KeyedMap<String> = KeyedMap::new();
    host.insert("PATH".to_string(), "/usr/bin".to_string());
    let env = compose_env(&vec![inst, dup], &vec![d, d], &host, false);
    assert_eq!(env.get("PATH").unwrap(), "/c/node/v20.11.0/bin:/usr/bin");
    assert_eq!(env.get("LD_LIBRARY_PATH").unwrap(), "/c/node/v20.11.0/lib");
    assert_eq!(env.get("CPATH").unwrap(), "/c/node/v20.11.0/include");
    assert_eq!(env.get("MANPATH").unwrap(), "/c/node/v20.11.0/share/man");
    assert_eq!(env.get("XDG_DATA_DIRS").unwrap(), "/c/node/v20.11.0/share");
    assert!(env.get("PKG_CONFIG_PATH").is_none());
    assert!(env.get("DYLD_FALLBACK_LIBRARY_PATH").is_none());
    assert_eq!(env.len(), 5);
}

#[test]
fn compose_env_on_macos_adds_dyld_path() {
    let pkg = Package { project: "x".into(), version: PkgVersion::new(1, 0, 0) };
    let inst = Installation { pkg, path: "/c/x/v1.0.0".to_string() };
    let mut d = no_dirs();
    d.lib = true;
    let env = compose_env(&vec![inst], &vec![d], &KeyedMap::new(), true);
    assert_eq!(env.get("DYLD_FALLBACK_LIBRARY_PATH").unwrap(), "/c/x/v1.0.0/lib");
}
