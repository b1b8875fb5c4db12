use buckets::gui::{
    display_binds, display_env, display_name, find_free_display_in, gui_profile, socket_path_for, vnc_args, xvfb_args,
    DisplayFiles,
};
use buckets::keyed::KeyedMap;

#[test]
fn find_free_display_skips_existing_sockets() {
    let existing = vec!["X99".to_string(), "X100".to_string()];
    let n = find_free_display_in(&existing).unwrap();
    assert_eq!(n, 101);
}

#[test]
fn find_free_display_starts_at_99_when_empty() {
    let n = find_free_display_in(&vec![]).unwrap();
    assert_eq!(n, 99);
}

#[test]
fn find_free_display_fails_when_all_taken() {
    let existing: Vec<String> = (99..10000).map(|n| format!("X{n}")).collect();
    assert!(find_free_display_in(&existing).is_err());
}

#[test]
fn socket_path_matches_x11_unix_convention() {
    assert_eq!(socket_path_for(99), "/tmp/.X11-unix/X99");
    assert_eq!(socket_path_for(0), "/tmp/.X11-unix/X0");
}

#[test]
fn xvfb_and_vnc_command_lines() {
    assert_eq!(display_name(99), ":99");
    assert_eq!(
        xvfb_args(":99", 1024, 768, 24, "/tmp/a.xauth"),
        vec![":99", "-screen", "0", "1024x768x24", "-auth", "/tmp/a.xauth"]
    );
    assert_eq!(
        vnc_args(":99", 5900, None),
        vec!["-display", ":99", "-rfbport", "5900", "-forever", "-shared", "-noipv6", "-nopw"]
    );
    assert_eq!(vnc_args(":99", 5900, Some("pw"))[7..], ["-passwd".to_string(), "pw".to_string()]);
    assert_eq!(vnc_args(":99", 5900, Some("")).len(), 7);
}

fn files() -> DisplayFiles {
    DisplayFiles {
        display: ":99".to_string(),
        socket: "/tmp/.X11-unix/X99".to_string(),
        xauthority: "/tmp/buckets-xauth-99-1".to_string(),
    }
}

#[test]
fn a_gui_command_sees_its_display_and_nothing_more() {
    let mut env = KeyedMap::new();
    env.insert("PATH".to_string(), "/opt/bin".to_string());
    env.insert("DISPLAY".to_string(), ":0".to_string());
    let e = display_env(&env, &files());
    assert_eq!(e.get("PATH").unwrap(), "/opt/bin");
    assert_eq!(e.get("DISPLAY").unwrap(), ":99");
    assert_eq!(e.get("XAUTHORITY").unwrap(), "/tmp/buckets-xauth-99-1");
    assert_eq!(e.len(), 3);
    let binds = display_binds(&vec!["/c/node/v20".to_string()], &files());
    assert_eq!(binds, vec!["/c/node/v20", "/tmp/.X11-unix/X99", "/tmp/buckets-xauth-99-1"]);
    let p = gui_profile("/work", &vec!["/c/node/v20".to_string()], &files());
    assert_eq!(p.project_dir.as_deref(), Some("/work"));
    assert_eq!(p.extra_ro_binds, binds);
    assert!(!p.allow_network);
}
