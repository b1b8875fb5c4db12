use buckets::net::{keep_live, keeper_args, loopback_up_args, stale_message, NetInfo, NetSession};

#[test]
fn namespace_paths_follow_the_keeper() {
    let s = NetSession::new("my-net".to_string(), 4242, "/nets/my-net".to_string());
    assert_eq!(s.ns_path(), "/proc/4242/ns/net");
    assert_eq!(s.user_ns_path(), "/proc/4242/ns/user");
    let fwd = s.forward_args(8080, 3000);
    assert_eq!(fwd[0], "TCP-LISTEN:8080,fork,reuseaddr,bind=127.0.0.1");
    assert_eq!(
        fwd[1],
        "EXEC:\"nsenter --user=/proc/4242/ns/user --net=/proc/4242/ns/net --preserve-credentials -- socat - TCP:127.0.0.1:3000\""
    );
}

#[test]
fn keeper_and_loopback_command_lines() {
    assert_eq!(keeper_args(), vec!["--user", "--net", "--", "sleep", "infinity"]);
    assert_eq!(
        loopback_up_args(7),
        vec!["--user=/proc/7/ns/user", "--net=/proc/7/ns/net", "--preserve-credentials", "--", "ip", "link", "set", "lo", "up"]
    );
}

#[test]
fn stale_nets_are_dropped() {
    let infos = vec![
        NetInfo { name: "my-net".to_string(), keeper_pid: 999_999 },
        NetInfo { name: "live".to_string(), keeper_pid: 12 },
    ];
    let kept = keep_live(infos, &vec![false, true]);
    assert_eq!(kept.len(), 1);
    assert_eq!(kept[0].name, "live");
    assert_eq!(
        stale_message("my-net", 999_999),
        "Buck-net 'my-net' is stale — keeper process (999999) is gone. Stale state cleaned up."
    );
}
