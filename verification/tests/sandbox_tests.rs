use buckets::keyed::KeyedMap;
use buckets::sandbox::{build_bwrap_args, build_proot_args, host_paths_to_probe, sandboxed_command, SandboxProfile};

fn existing() -> Vec<String> {
    host_paths_to_probe().into_iter().filter(|p| std::path::Path::new(p).exists()).collect()
}

fn find(args: &[String], flag: &str) -> Vec<usize> {
    args.iter().enumerate().filter(|(_, a)| *a == flag).map(|(i, _)| i).collect()
}

fn strings(items: &[&str]) -> Vec<String> {
    items.iter().map(|s| s.to_string()).collect()
}

#[test]
fn base_dirs_are_ro_bound() {
    let profile = SandboxProfile::default();
    let args = build_bwrap_args("echo", &strings(&["hi"]), "/tmp", &profile, &existing());
    let ro_bind_positions = find(&args, "--ro-bind");
    assert!(!ro_bind_positions.is_empty());
    assert!(args.iter().any(|a| a == "/usr"));
}

#[test]
fn network_unshared_by_default() {
    let profile = SandboxProfile::default();
    let args = build_bwrap_args("echo", &vec![], "/tmp", &profile, &existing());
    assert!(args.iter().any(|a| a == "--unshare-net"));
}

#[test]
fn network_allowed_when_requested() {
    let profile = SandboxProfile { allow_network: true, ..Default::default() };
    let args = build_bwrap_args("echo", &vec![], "/tmp", &profile, &existing());
    assert!(!args.iter().any(|a| a == "--unshare-net"));
}

#[test]
fn network_allowed_binds_resolv_conf() {
    let profile = SandboxProfile { allow_network: true, ..Default::default() };
    let mut ex = existing();
    ex.push("/etc/resolv.conf".to_string());
    let args = build_bwrap_args("echo", &vec![], "/tmp", &profile, &ex);
    assert!(args.iter().any(|a| a == "/etc/resolv.conf"), "{args:?}");
}

#[test]
fn network_disallowed_does_not_bind_etc_files() {
    let profile = SandboxProfile::default();
    let args = build_bwrap_args("echo", &vec![], "/tmp", &profile, &existing());
    assert!(!args.iter().any(|a| a == "/etc/resolv.conf"), "{args:?}");
}

#[test]
fn pid_always_unshared() {
    let profile = SandboxProfile::default();
    let args = build_bwrap_args("echo", &vec![], "/tmp", &profile, &existing());
    assert!(args.iter().any(|a| a == "--unshare-pid"));
}

#[test]
fn project_dir_gets_rw_bind() {
    let profile = SandboxProfile { project_dir: Some("/home/user/proj".to_string()), ..Default::default() };
    let args = build_bwrap_args("cargo", &strings(&["build"]), "/home/user/proj", &profile, &existing());
    let bind_positions = find(&args, "--bind");
    assert_eq!(bind_positions.len(), 1);
    assert_eq!(args[bind_positions[0] + 1], "/home/user/proj");
    assert_eq!(args[bind_positions[0] + 2], "/home/user/proj");
}

#[test]
fn no_project_dir_means_no_rw_bind() {
    let profile = SandboxProfile::default();
    let args = build_bwrap_args("node", &vec![], "/tmp", &profile, &existing());
    assert!(find(&args, "--bind").is_empty());
}

#[test]
fn extra_ro_binds_included_for_each_installation() {
    let profile = SandboxProfile {
        extra_ro_binds: strings(&[
            "/home/user/.buckets/nodejs.org/v20.20.2",
            "/home/user/.buckets/openssl.org/v1.1.1w",
        ]),
        ..Default::default()
    };
    let args = build_bwrap_args("node", &vec![], "/tmp", &profile, &existing());
    assert!(args.iter().any(|a| a == "/home/user/.buckets/nodejs.org/v20.20.2"));
    assert!(args.iter().any(|a| a == "/home/user/.buckets/openssl.org/v1.1.1w"));
}

#[test]
fn program_and_args_come_after_separator() {
    let profile = SandboxProfile::default();
    let args = build_bwrap_args("node", &strings(&["-e", "1+1"]), "/tmp", &profile, &existing());
    let sep = args.iter().position(|a| a == "--").expect("-- separator present");
    assert_eq!(args[sep + 1], "node");
    assert_eq!(args[sep + 2], "-e");
    assert_eq!(args[sep + 3], "1+1");
}

#[test]
fn chdir_set_to_cwd() {
    let profile = SandboxProfile::default();
    let args = build_bwrap_args("echo", &vec![], "/some/cwd", &profile, &existing());
    let pos = args.iter().position(|a| a == "--chdir").expect("--chdir present");
    assert_eq!(args[pos + 1], "/some/cwd");
}

#[test]
fn proot_chdir_set_to_cwd() {
    let profile = SandboxProfile::default();
    let args = build_proot_args("echo", &vec![], "/some/cwd", &profile);
    let pos = args.iter().position(|a| a == "-w").expect("-w present");
    assert_eq!(args[pos + 1], "/some/cwd");
}

#[test]
fn proot_extra_ro_binds_included() {
    let profile = SandboxProfile {
        extra_ro_binds: strings(&["/home/user/.buckets/nodejs.org/v20.20.2"]),
        ..Default::default()
    };
    let args = build_proot_args("node", &vec![], "/tmp", &profile);
    let pos = args.iter().position(|a| a == "-b").expect("-b present");
    assert_eq!(args[pos + 1], "/home/user/.buckets/nodejs.org/v20.20.2:/home/user/.buckets/nodejs.org/v20.20.2");
}

#[test]
fn proot_project_dir_gets_bind() {
    let profile = SandboxProfile { project_dir: Some("/home/user/proj".to_string()), ..Default::default() };
    let args = build_proot_args("cargo", &strings(&["build"]), "/home/user/proj", &profile);
    let pos = args.iter().position(|a| a == "-b").expect("-b present");
    assert_eq!(args[pos + 1], "/home/user/proj:/home/user/proj");
}

#[test]
fn proot_program_and_args_come_after_separator() {
    let profile = SandboxProfile::default();
    let args = build_proot_args("node", &strings(&["-e", "1+1"]), "/tmp", &profile);
    let sep = args.iter().position(|a| a == "--").expect("-- separator present");
    assert_eq!(args[sep + 1], "node");
    assert_eq!(args[sep + 2], "-e");
    assert_eq!(args[sep + 3], "1+1");
}

#[test]
fn bwrap_args_exact_for_a_known_host() {
    let profile = SandboxProfile { project_dir: Some("/p".to_string()), extra_ro_binds: strings(&["/i"]), allow_network: false };
    let ex = strings(&["/usr", "/lib", "/etc/hosts"]);
    let args = build_bwrap_args("sh", &strings(&["-c", "x"]), "/p", &profile, &ex);
    assert_eq!(
        args,
        vec![
            "--ro-bind", "/usr", "/usr", "--ro-bind", "/lib", "/lib", "--proc", "/proc", "--dev", "/dev",
            "--tmpfs", "/tmp", "--unshare-pid", "--unshare-net", "--ro-bind", "/i", "/i", "--bind", "/p", "/p",
            "--chdir", "/p", "--", "sh", "-c", "x",
        ]
    );
}

#[test]
fn backend_falls_back_from_bwrap_to_proot_to_nothing() {
    let profile = SandboxProfile::default();
    let ex = strings(&["/usr"]);
    let mut env = KeyedMap::new();
    env.insert("PATH".to_string(), "/opt/node/bin".to_string());
    env.insert("FOO".to_string(), "bar".to_string());
    let a = sandboxed_command("echo", &strings(&["hi"]), "/tmp", &env, &profile, Some("/usr/bin/bwrap".to_string()), Some("/usr/bin/proot".to_string()), &ex);
    assert_eq!(a.program, "/usr/bin/bwrap");
    assert!(a.warning.is_none());
    let b = sandboxed_command("echo", &strings(&["hi"]), "/tmp", &env, &profile, None, Some("/usr/bin/proot".to_string()), &ex);
    assert_eq!(b.program, "/usr/bin/proot");
    assert_eq!(b.args[0], "-0");
    assert!(b.warning.unwrap().contains("proot"));
    let c = sandboxed_command("echo", &strings(&["hi"]), "/tmp", &env, &profile, None, None, &ex);
    assert_eq!(c.program, "echo");
    assert_eq!(c.args, vec!["hi"]);
    assert_eq!(c.cwd.unwrap(), "/tmp");
    assert!(c.warning.unwrap().contains("WITHOUT sandbox isolation"));
    assert_eq!(a.env.entries, env.entries);
    assert_eq!(b.env.entries, env.entries);
    assert_eq!(c.env.entries, env.entries);
}

#[test]
fn absent_host_files_are_never_bound() {
    let profile = SandboxProfile { project_dir: None, extra_ro_binds: vec![], allow_network: true };
    let ex = strings(&["/usr", "/etc/resolv.conf"]);
    let args = build_bwrap_args("true", &vec![], "/", &profile, &ex);
    assert!(args.contains(&"/etc/resolv.conf".to_string()));
    assert!(!args.contains(&"/etc/hosts".to_string()));
    assert!(args.contains(&"/usr".to_string()));
    assert!(!args.contains(&"/lib64".to_string()));
}
