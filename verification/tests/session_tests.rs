use buckets::config::Config;
use buckets::keyed::KeyedMap;
use buckets::session::{
    backing_description, combine_output, default_mount_point, exec_failure_message, exec_precondition,
    generate_session_id, mounts_contain, new_session_config, overlay_options, overlay_upper_dir,
    overlay_work_dir, session_config_path, session_dir, session_id_from, stop_message, tmpfs_mount_args,
};

fn config() -> Config {
    Config {
        dist_url: "https://dist.pkgx.dev".to_string(),
        cache_dir: "/tmp/.buckets-test".to_string(),
        worktree_dir: None,
        platform: "linux/x86-64".to_string(),
        pantry_overrides: KeyedMap::new(),
    }
}

#[test]
fn test_generate_session_id_format() {
    let id = generate_session_id();
    assert!(id.len() > 8, "session ID should be at least 8 chars, got: {id}");
    assert!(id.contains('-'), "session ID should contain a dash separator");
}

#[test]
fn session_id_spells_time_and_bytes_in_hex() {
    assert_eq!(session_id_from(0x65f0a1b2, &vec![0x9c, 0x04, 0xe2, 0xff]), "s65f0a1b2-9c04e2ff");
    assert_eq!(session_id_from(0, &vec![0, 0, 0, 0]), "s0-00000000");
}

#[test]
fn test_default_mount_point_format() {
    let mp = default_mount_point("test-id");
    assert_eq!(mp, "/tmp/buckets-session-test-id");
}

#[test]
fn test_session_dir_layout() {
    let config = config();
    assert_eq!(session_dir(&config, "test-id"), "/tmp/.buckets-test/sessions/test-id");
    assert_eq!(session_config_path(&config, "test-id"), "/tmp/.buckets-test/sessions/test-id/config.toml");
    assert_eq!(overlay_upper_dir(&config, "test-id"), "/tmp/.buckets-test/sessions/test-id/upper");
    assert_eq!(overlay_work_dir(&config, "test-id"), "/tmp/.buckets-test/sessions/test-id/work");
}

#[test]
fn overlay_options_join_lower_layers() {
    let lower = vec!["/a".to_string(), "/b".to_string()];
    assert_eq!(
        overlay_options(&lower, "/u", "/w"),
        "lowerdir=/a:/b,upperdir=/u,workdir=/w,userxattr,redirect_dir=on"
    );
    assert_eq!(tmpfs_mount_args("4G", "/u")[4], "size=4G,mode=0755");
}

#[test]
fn mounts_are_found_by_second_field() {
    let mounts = "overlay /tmp/buckets-session-x overlay rw 0 0\nproc /proc proc rw 0 0\n";
    assert!(mounts_contain(mounts, "/tmp/buckets-session-x"));
    assert!(mounts_contain(mounts, "/proc"));
    assert!(!mounts_contain(mounts, "overlay"));
    assert!(!mounts_contain(mounts, "/tmp"));
}

#[test]
fn session_messages() {
    assert_eq!(backing_description(true, true, Some("2G")), "zram");
    assert_eq!(backing_description(false, true, None), "tmpfs(4G)");
    assert_eq!(backing_description(false, true, Some("2G")), "tmpfs(2G)");
    assert_eq!(backing_description(false, false, None), "disk");
    assert_eq!(combine_output("out", "err"), "out\nerr");
    assert_eq!(combine_output("", "err"), "err");
    assert_eq!(combine_output("out", ""), "out");
    assert_eq!(exec_failure_message(Some(2), "boom"), "Command exited with status 2:\nboom");
    assert_eq!(exec_failure_message(None, ""), "Command exited with status -1:\n");
    assert_eq!(stop_message("s1", true, "/u"), "Session 's1' stopped and purged");
    assert_eq!(stop_message("s1", false, "/u"), "Session 's1' stopped (upper dir preserved at /u)");
    assert_eq!(exec_precondition(true, true, "s1", "/m").unwrap(), "No command specified for session exec");
    assert_eq!(exec_precondition(false, false, "s1", "/m").unwrap(), "Session s1 overlay is not mounted at /m");
    assert!(exec_precondition(false, true, "s1", "/m").is_none());
}

#[test]
fn new_session_records_layers() {
    let lower = vec!["/a".to_string(), "/b".to_string()];
    let cfg = new_session_config(
        "test123".to_string(),
        "12345".to_string(),
        "/tmp/buckets-session-test123".to_string(),
        &lower,
        "/path/to/upper".to_string(),
        "/path/to/work".to_string(),
        false,
        false,
        vec!["node@20".to_string()],
    );
    assert_eq!(cfg.session_id, "test123");
    assert_eq!(cfg.specs[0], "node@20");
    assert_eq!(cfg.overlay_lower, "/a:/b");
    assert_eq!(cfg.toolchain_dirs, lower);
    assert_eq!(cfg.pid, None);
}

fn record(id: &str, created_at: &str) -> buckets::session::SessionConfig {
    new_session_config(
        id.to_string(),
        created_at.to_string(),
        format!("/tmp/buckets-session-{id}"),
        &vec![],
        "/u".to_string(),
        "/w".to_string(),
        false,
        false,
        vec![],
    )
}

#[test]
fn sessions_list_newest_first() {
    let sorted = buckets::session::sessions_newest_first(vec![
        record("a", "10s"),
        record("b", "30s"),
        record("c", "20s"),
        record("d", "30s"),
    ]);
    let ids: Vec<&str> = sorted.iter().map(|s| s.session_id.as_str()).collect();
    assert_eq!(ids, vec!["b", "d", "c", "a"]);
}
