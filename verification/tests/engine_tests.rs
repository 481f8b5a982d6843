use aether::engine::{
    engine_command, parse_core_version, runtime_copy_is_fresh, spawn_message, supports_log_level,
    FileStamp,
};
use aether::profile::ConnectionProfile;
use aether::store::ProfileStore;
use aether::sysproxy::{disable, enable, enabled_message, BYPASS, KEY};
use aether::tun::route_summary;
use aether::profile::SplitMode;

#[test]
fn core_versions() {
    assert_eq!(parse_core_version("v1.4.0\n"), (1, 4));
    assert_eq!(parse_core_version("  1.3.9 "), (1, 3));
    assert_eq!(parse_core_version("vv2"), (2, 0));
    assert_eq!(parse_core_version("garbage"), (0, 0));
    assert_eq!(parse_core_version("1.x.2"), (1, 0));
    assert!(supports_log_level("v1.4.0"));
    assert!(supports_log_level("2.0"));
    assert!(!supports_log_level("1.3.9"));
    assert!(!supports_log_level(""));
}

#[test]
fn engine_command_prepends_flags() {
    let p = ConnectionProfile::default();
    let c = engine_command(&p, true, "C:\\run");
    assert_eq!(c.args, vec!["--log-level", "info", "--perf", "high", "--balanced", "-4", "--quick-reconnect"]);
    let keys: Vec<&str> = c.env.iter().map(|(k, _)| k.as_str()).collect();
    assert_eq!(keys, vec!["AETHER_MASQUE_HTTP2", "HOME", "TMPDIR", "RUST_BACKTRACE", "RUST_LOG"]);
    assert_eq!(c.env[1].1, "C:\\run");
    let old = engine_command(&p, false, "d");
    assert_eq!(old.args, vec!["--balanced", "-4", "--quick-reconnect"]);
    assert_eq!(spawn_message(&old.args), "Spawned aether.exe --balanced -4 --quick-reconnect");
}

#[test]
fn staged_copy_freshness() {
    let a = FileStamp { len: 10, modified_ns: Some(5) };
    assert!(runtime_copy_is_fresh(Some(a), Some(FileStamp { len: 10, modified_ns: Some(5) })));
    assert!(!runtime_copy_is_fresh(Some(a), Some(FileStamp { len: 10, modified_ns: Some(4) })));
    assert!(!runtime_copy_is_fresh(Some(a), Some(FileStamp { len: 11, modified_ns: Some(9) })));
    assert!(!runtime_copy_is_fresh(Some(a), None));
    assert!(!runtime_copy_is_fresh(Some(a), Some(FileStamp { len: 10, modified_ns: None })));
}

#[test]
fn system_proxy_commands() {
    let cmds = enable(10811);
    assert_eq!(cmds.len(), 3);
    assert_eq!(cmds[0], vec!["add", KEY, "/v", "ProxyServer", "/t", "REG_SZ", "/d", "127.0.0.1:10811", "/f"]);
    assert_eq!(cmds[1][7], BYPASS);
    assert_eq!(cmds[2][7], "1");
    assert_eq!(disable(), vec![vec!["add", KEY, "/v", "ProxyEnable", "/t", "REG_DWORD", "/d", "0", "/f"]]);
    assert_eq!(
        enabled_message(10811),
        "System proxy enabled -> 127.0.0.1:10811 (bypass: localhost;127.*;10.*;172.16.*;192.168.*;<local>)"
    );
}

#[test]
fn tunnel_route_summary() {
    let p = ConnectionProfile {
        split_mode: SplitMode::Exclude,
        split_apps: vec!["a.exe".into(), "b.exe".into()],
        ..Default::default()
    };
    let lines = route_summary(&p);
    assert_eq!(lines[0], "Default routes captured: 0.0.0.0/0 and ::/0");
    assert_eq!(lines[2], "Split tunnelling: 2 bypass the tunnel");
    assert_eq!(route_summary(&ConnectionProfile::default())[2], "Split tunnelling: off (default)");
}

#[test]
fn store_reads_never_fail() {
    let s = ProfileStore::new("C:\\Users\\me\\AppData\\Local\\Aether");
    assert_eq!(s.data_dir(), "C:\\Users\\me\\AppData\\Local\\Aether");
    let (p, w) = ProfileStore::loaded(None);
    assert_eq!(p, ConnectionProfile::default());
    assert!(w.is_none());
    let (p, w) = ProfileStore::loaded(Some(Err("expected value at line 1".to_string())));
    assert_eq!(p, ConnectionProfile::default());
    assert_eq!(w.as_deref(), Some("Profile unreadable (expected value at line 1); using defaults."));
    let mine = ConnectionProfile { mtu: 1500, ..Default::default() };
    let (p, w) = ProfileStore::loaded(Some(Ok(mine.clone())));
    assert_eq!(p, mine);
    assert!(w.is_none());
}
