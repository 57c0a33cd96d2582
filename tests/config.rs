use chook::config::{
    controller_env, launch_env, log_target, parse_log_target, read_config, socket_path_in,
    ALLOWED_CALLING_PID, LOG_TO, PRELOAD, SOCKET_PATH,
};
use chook::LogMode;

fn pair(k: &str, v: &str) -> (String, String) {
    (k.to_string(), v.to_string())
}

#[test]
fn log_targets() {
    assert_eq!(log_target(&LogMode::File(String::from("/tmp/log.txt"))), Some(String::from("file:///tmp/log.txt")));
    assert_eq!(log_target(&LogMode::Stdout), Some(String::from("stdout")));
    assert_eq!(log_target(&LogMode::Stderr), Some(String::from("stderr")));
    assert_eq!(log_target(&LogMode::Discard), None);
}

#[test]
fn parses_log_targets() {
    assert!(matches!(parse_log_target(Some("stdout")), LogMode::Stdout));
    assert!(matches!(parse_log_target(Some("stderr")), LogMode::Stderr));
    match parse_log_target(Some("file:///var/log/x")) {
        LogMode::File(p) => assert_eq!(p, "/var/log/x"),
        _ => panic!("expected a file"),
    }
    assert!(matches!(parse_log_target(Some("stdoutx")), LogMode::Discard));
    assert!(matches!(parse_log_target(Some("file:/x")), LogMode::Discard));
    assert!(matches!(parse_log_target(Some("")), LogMode::Discard));
    assert!(matches!(parse_log_target(None), LogMode::Discard));
}

#[test]
fn log_target_round_trip() {
    let t = log_target(&LogMode::File(String::from("/a/b"))).unwrap();
    match parse_log_target(Some(&t)) {
        LogMode::File(p) => assert_eq!(p, "/a/b"),
        _ => panic!("expected a file"),
    }
    let t = log_target(&LogMode::Stderr).unwrap();
    assert!(matches!(parse_log_target(Some(&t)), LogMode::Stderr));
}

#[test]
fn socket_path_joins_directory() {
    assert_eq!(socket_path_in("/tmp/abc"), "/tmp/abc/chook_control.sock");
    assert_eq!(socket_path_in("/tmp/abc/"), "/tmp/abc/chook_control.sock");
    assert_eq!(socket_path_in(""), "chook_control.sock");
}

#[test]
fn launch_env_entries() {
    let env = launch_env("/lib/hook.so", 4242, "/tmp/d/chook_control.sock", &LogMode::Stderr);
    assert_eq!(
        env,
        vec![
            pair(PRELOAD, "/lib/hook.so"),
            pair(ALLOWED_CALLING_PID, "4242"),
            pair(SOCKET_PATH, "/tmp/d/chook_control.sock"),
            pair(LOG_TO, "stderr"),
        ]
    );
    let env = launch_env("/lib/hook.so", 7, "/s", &LogMode::Discard);
    assert_eq!(env.len(), 3);
    assert_eq!(env[0].0, "LD_PRELOAD");
    assert_eq!(env[1], pair("CHOOK__INTERNAL__ALLOWED_CALLING_PID", "7"));
    assert_eq!(env[2].0, "CHOOK__INTERNAL__SOCKET_PATH");
}

#[test]
fn controller_env_authorizes_this_process() {
    let (pid, env) = controller_env("/lib/hook.so", "/s", &LogMode::Stdout);
    assert_eq!(pid, nix::unistd::getpid().as_raw());
    assert_eq!(env[1], pair(ALLOWED_CALLING_PID, &pid.to_string()));
    assert_eq!(env[3], pair(LOG_TO, "stdout"));
}

#[test]
fn runtime_reads_its_configuration() {
    let c = read_config(Some("4242"), Some("/tmp/s.sock")).unwrap();
    assert_eq!(c.allowed_pid, 4242);
    assert_eq!(c.socket_path, "/tmp/s.sock");
    assert!(read_config(None, Some("/tmp/s.sock")).is_err());
    assert!(read_config(Some("4242"), None).is_err());
    assert!(read_config(Some("pid"), Some("/tmp/s.sock")).is_err());
}
