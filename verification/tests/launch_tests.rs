use buckets::keyed::KeyedMap;
use buckets::launch::{
    bucket_label, bucket_prompt, entrypoint_command, is_local_bucket, require_specs, run_command, run_cwd, run_env,
    shell_ps1, wait_step, RunError, WaitAction, POLL_INTERVAL_MS,
};

#[test]
fn labels_and_prompts() {
    let specs = vec!["node@20".to_string(), "python@3.11".to_string()];
    let label = bucket_label(&specs);
    assert_eq!(label, "node@20+python@3.11");
    assert_eq!(bucket_prompt(&label), "[node@20+python@3.11] ");
    assert_eq!(shell_ps1("/bin/bash", "[x] ").unwrap(), "\\[\\e[1;34m\\][x] \\[\\e[0m\\]\\w \\$ ");
    assert!(shell_ps1("/usr/bin/zsh", "[x] ").is_some());
    assert!(shell_ps1("/bin/sh", "[x] ").is_none());
}

#[test]
fn local_bucket_entrypoints() {
    assert!(is_local_bucket("local/my-app"));
    assert!(!is_local_bucket("nodejs.org"));
    let (program, args) = entrypoint_command("  node  index.js --port 80 ").unwrap();
    assert_eq!(program, "node");
    assert_eq!(args, vec!["index.js", "--port", "80"]);
    assert!(entrypoint_command("   ").is_none());
}

#[test]
fn recorded_variables_override_the_resolved_environment() {
    let mut resolved: KeyedMap<String> = KeyedMap::new();
    resolved.insert("PATH".to_string(), "/a/bin".to_string());
    resolved.insert("A".to_string(), "old".to_string());
    let mut recorded: KeyedMap<String> = KeyedMap::new();
    recorded.insert("A".to_string(), "new".to_string());
    recorded.insert("B".to_string(), "1".to_string());
    let env = run_env(&resolved, &recorded);
    assert_eq!(env.get("PATH").unwrap(), "/a/bin");
    assert_eq!(env.get("A").unwrap(), "new");
    assert_eq!(env.get("B").unwrap(), "1");
    assert_eq!(env.len(), 3);
}

#[test]
fn commands_that_resolve_a_bucket_need_a_spec() {
    assert_eq!(require_specs(&vec![]).unwrap_err(), "At least one spec is required (e.g. 'node@20')");
    assert!(require_specs(&vec!["node@20".to_string()]).is_ok());
}

#[test]
fn run_prefers_the_given_command_then_the_entrypoint() {
    let command = vec!["python".to_string(), "-c".to_string(), "print(1)".to_string()];
    let (p, a) = run_command(&command, Some("node index.js")).unwrap();
    assert_eq!(p, "python");
    assert_eq!(a, vec!["-c", "print(1)"]);
    let (p, a) = run_command(&vec![], Some("  node  index.js ")).unwrap();
    assert_eq!(p, "node");
    assert_eq!(a, vec!["index.js"]);
    let e = run_command(&vec![], Some("   ")).unwrap_err();
    assert_eq!(e, RunError::EmptyEntrypoint);
    assert_eq!(e.message(), "Empty entrypoint in local bucket metadata");
    let e = run_command(&vec![], None).unwrap_err();
    assert_eq!(e, RunError::NoCommand);
    assert_eq!(
        e.message(),
        "No command specified. Use 'buckets run <spec> -- <command>' or 'buckets shell <spec>'"
    );
}

#[test]
fn run_starts_in_the_bucket_workspace() {
    assert_eq!(run_cwd(Some("/c/local/app/v0.0.0/workspace"), Some("src"), "/home"), "/c/local/app/v0.0.0/workspace/src");
    assert_eq!(run_cwd(Some("/ws"), Some("/abs"), "/home"), "/abs");
    assert_eq!(run_cwd(Some("/ws"), None, "/home"), "/ws");
    assert_eq!(run_cwd(None, Some("src"), "/home"), "/home");
}

#[test]
fn waiting_kills_only_after_the_timeout() {
    assert_eq!(wait_step(None, false, 1_000_000), WaitAction::Block);
    assert_eq!(wait_step(Some(2), true, 5000), WaitAction::Collect);
    assert_eq!(wait_step(Some(2), false, 1999), WaitAction::Poll);
    assert_eq!(wait_step(Some(2), false, 2000), WaitAction::Kill);
    assert_eq!(wait_step(Some(0), false, 0), WaitAction::Kill);
    assert_eq!(wait_step(Some(u64::MAX), false, u64::MAX), WaitAction::Poll);
    assert_eq!(POLL_INTERVAL_MS, 100);
}
