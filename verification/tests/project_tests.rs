use buckets::project::{cleanup_after_build, clone_args, detect, looks_like_git_url, Cleanup, ProjectFiles};

fn no_files() -> ProjectFiles {
    ProjectFiles {
        cargo_toml: false,
        package_json: false,
        pyproject_toml: false,
        setup_py: false,
        requirements_txt: false,
        go_mod: false,
        makefile: false,
        rust_toolchain_toml_text: None,
        rust_toolchain_text: None,
        package_json_text: None,
        go_mod_text: None,
    }
}

fn package_json(text: &str) -> ProjectFiles {
    let mut f = no_files();
    f.package_json = true;
    f.package_json_text = Some(text.to_string());
    f
}

#[test]
fn detects_rust_project() {
    let mut f = no_files();
    f.cargo_toml = true;
    let plan = detect("/p", &f).unwrap();
    assert_eq!(plan.toolchain_specs, vec!["rust"]);
    assert_eq!(plan.build_cmd, vec!["cargo", "build"]);
    assert!(plan.test_cmd.is_some());
    assert!(plan.run_cmd.is_some());
}

#[test]
fn detects_pinned_rust_toolchain() {
    let mut f = no_files();
    f.cargo_toml = true;
    f.rust_toolchain_toml_text = Some("[toolchain]\nchannel = \"1.75.0\"\n".to_string());
    let plan = detect("/p", &f).unwrap();
    assert_eq!(plan.toolchain_specs, vec!["rust@1.75.0"]);
}

#[test]
fn ignores_non_numeric_rust_channel() {
    let mut f = no_files();
    f.cargo_toml = true;
    f.rust_toolchain_toml_text = Some("[toolchain]\nchannel = \"stable\"\n".to_string());
    let plan = detect("/p", &f).unwrap();
    assert_eq!(plan.toolchain_specs, vec!["rust"]);
}

#[test]
fn plain_rust_toolchain_file_is_used_without_toml() {
    let mut f = no_files();
    f.cargo_toml = true;
    f.rust_toolchain_text = Some("  1.80.1\n".to_string());
    let plan = detect("/p", &f).unwrap();
    assert_eq!(plan.toolchain_specs, vec!["rust@1.80.1"]);
}

#[test]
fn detects_node_project_with_engines_and_scripts() {
    let f = package_json(r#"{"engines":{"node":"^20"},"scripts":{"test":"jest","start":"node index.js"}}"#);
    let plan = detect("/p", &f).unwrap();
    assert_eq!(plan.toolchain_specs, vec!["node@^20"]);
    assert_eq!(plan.test_cmd, Some(vec!["npm".to_string(), "test".to_string()]));
    assert_eq!(plan.run_cmd, Some(vec!["npm".to_string(), "start".to_string()]));
}

#[test]
fn node_without_engines_or_scripts_defaults() {
    let f = package_json(r#"{"name":"x"}"#);
    let plan = detect("/p", &f).unwrap();
    assert_eq!(plan.toolchain_specs, vec!["node"]);
    assert_eq!(plan.test_cmd, None);
    assert_eq!(plan.run_cmd, None);
}

#[test]
fn unparsable_package_json_falls_back_to_defaults() {
    let f = package_json("{not json");
    let plan = detect("/p", &f).unwrap();
    assert_eq!(plan.toolchain_specs, vec!["node"]);
    assert_eq!(plan.build_cmd, vec!["npm", "install"]);
}

#[test]
fn detects_python_pyproject() {
    let mut f = no_files();
    f.pyproject_toml = true;
    let plan = detect("/p", &f).unwrap();
    assert_eq!(plan.toolchain_specs, vec!["python"]);
    assert_eq!(plan.build_cmd, vec!["pip", "install", "-e", "."]);
}

#[test]
fn detects_python_requirements_only() {
    let mut f = no_files();
    f.requirements_txt = true;
    let plan = detect("/p", &f).unwrap();
    assert_eq!(plan.build_cmd, vec!["pip", "install", "-r", "requirements.txt"]);
}

#[test]
fn detects_go_project_with_pinned_version() {
    let mut f = no_files();
    f.go_mod = true;
    f.go_mod_text = Some("module example.com/x\n\ngo 1.22\n".to_string());
    let plan = detect("/p", &f).unwrap();
    assert_eq!(plan.toolchain_specs, vec!["go@1.22"]);
    assert_eq!(plan.build_cmd, vec!["go", "build", "./..."]);
}

#[test]
fn detects_makefile_project() {
    let mut f = no_files();
    f.makefile = true;
    let plan = detect("/p", &f).unwrap();
    assert_eq!(plan.toolchain_specs, vec!["make"]);
    assert_eq!(plan.build_cmd, vec!["make"]);
}

#[test]
fn cargo_toml_takes_priority_over_makefile() {
    let mut f = no_files();
    f.cargo_toml = true;
    f.makefile = true;
    let plan = detect("/p", &f).unwrap();
    assert_eq!(plan.toolchain_specs, vec!["rust"]);
}

#[test]
fn no_recognized_build_system_is_err() {
    let f = no_files();
    let err = detect("/p", &f).unwrap_err();
    assert_eq!(
        err.message(),
        "couldn't detect a build system in /p (looked for Cargo.toml, package.json, pyproject.toml/setup.py/requirements.txt, go.mod, Makefile)"
    );
}

#[test]
fn git_url_detection() {
    assert!(looks_like_git_url("https://github.com/nixpt/buckets"));
    assert!(looks_like_git_url("https://github.com/nixpt/buckets.git"));
    assert!(looks_like_git_url("git@github.com:nixpt/buckets.git"));
    assert!(looks_like_git_url("ssh://git@github.com/nixpt/buckets.git"));
    assert!(!looks_like_git_url("/workspace/projects/buckets"));
    assert!(!looks_like_git_url("../buckets"));
    assert!(!looks_like_git_url("buckets"));
}

#[test]
fn clone_is_shallow() {
    assert_eq!(clone_args("https://x/y.git", "/tmp/d"), vec!["clone", "--depth", "1", "https://x/y.git", "/tmp/d"]);
}

#[test]
fn only_a_temporary_clone_is_cleaned_up() {
    assert_eq!(cleanup_after_build(false, true, "/src"), Cleanup::Nothing);
    assert_eq!(cleanup_after_build(false, false, "/src"), Cleanup::Nothing);
    assert_eq!(cleanup_after_build(true, true, "/tmp/b"), Cleanup::RemoveClone);
    assert_eq!(
        cleanup_after_build(true, false, "/tmp/b"),
        Cleanup::KeepClone { warning: "⚠ build failed — leaving the clone at /tmp/b for inspection".to_string() }
    );
}
