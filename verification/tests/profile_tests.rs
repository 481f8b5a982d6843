use aether::profile::{
    ConnectionProfile, EndpointMode, IpVersion, Noize, Protocol, ScanMode, DEFAULT_MTU,
};

#[test]
fn default_profile_matches_android_argv() {
    let p = ConnectionProfile::default();
    assert_eq!(p.to_args(), vec!["--balanced", "-4", "--quick-reconnect"]);
}

#[test]
fn manual_peer_skips_scan_mode() {
    let p = ConnectionProfile {
        endpoint_mode: EndpointMode::ManualPeer,
        manual_peer: "188.114.96.1:2408".into(),
        protocol: Protocol::Masque,
        ..Default::default()
    };
    assert_eq!(p.to_args(), vec!["--masque", "-4", "--quick-reconnect", "--peer", "188.114.96.1:2408"]);
    assert_eq!(p.connect_timeout_ms(), 45_000);
}

#[test]
fn noize_and_hardening_flags() {
    let p = ConnectionProfile {
        protocol: Protocol::Wireguard,
        noize: Noize::Gfw,
        fragment: true,
        ech: true,
        keepalive: 25,
        ..Default::default()
    };
    assert_eq!(
        p.to_args(),
        vec!["--wg", "--balanced", "-4", "--quick-reconnect", "--noize", "gfw",
             "--fragment", "--ech", "auto", "--keepalive", "25"]
    );
}

#[test]
fn default_profile_values() {
    let p = ConnectionProfile::default();
    assert_eq!(p.protocol, Protocol::Smart);
    assert_eq!(p.scan_mode, ScanMode::Balanced);
    assert_eq!(p.ip_version, IpVersion::V4);
    assert!(p.quick_reconnect);
    assert_eq!(p.mtu, DEFAULT_MTU);
    assert_eq!(p.mtu, 1280);
    assert!(p.split_apps.is_empty());
}

#[test]
fn blank_manual_peer_is_not_a_peer() {
    let p = ConnectionProfile {
        endpoint_mode: EndpointMode::ManualPeer,
        manual_peer: "  \t ".into(),
        ..Default::default()
    };
    assert!(!p.has_manual_peer());
    assert_eq!(p.to_args(), vec!["--balanced", "-4", "--quick-reconnect"]);
    assert_eq!(p.connect_timeout_ms(), 150_000);
}

#[test]
fn manual_peer_is_trimmed() {
    let p = ConnectionProfile {
        endpoint_mode: EndpointMode::ManualPeer,
        manual_peer: "  1.2.3.4:500 \n".into(),
        quick_reconnect: false,
        ip_version: IpVersion::Both,
        ..Default::default()
    };
    assert!(p.has_manual_peer());
    assert_eq!(p.to_args(), vec!["--dual", "--no-quick-reconnect", "--peer", "1.2.3.4:500"]);
}

#[test]
fn peer_ignored_outside_manual_peer_mode() {
    let p = ConnectionProfile {
        endpoint_mode: EndpointMode::Auto,
        manual_peer: "1.2.3.4:500".into(),
        scan_mode: ScanMode::Ironclad,
        ip_version: IpVersion::V6,
        ..Default::default()
    };
    assert!(!p.has_manual_peer());
    assert_eq!(p.to_args(), vec!["--ironclad", "-6", "--quick-reconnect"]);
    assert_eq!(p.connect_timeout_ms(), 360_000);
}

#[test]
fn connect_timeouts_per_scan_mode() {
    let cases = [
        (ScanMode::Turbo, 60_000),
        (ScanMode::Balanced, 150_000),
        (ScanMode::Stealth, 240_000),
        (ScanMode::Thorough, 300_000),
        (ScanMode::Ironclad, 360_000),
    ];
    for (mode, t) in cases {
        let p = ConnectionProfile { scan_mode: mode, ..Default::default() };
        assert_eq!(p.connect_timeout_ms(), t);
    }
}

#[test]
fn gool_and_every_noize_name() {
    let names = [
        (Noize::Light, "light"),
        (Noize::Firewall, "firewall"),
        (Noize::Balanced, "balanced"),
        (Noize::Gfw, "gfw"),
        (Noize::Aggressive, "aggressive"),
    ];
    for (n, name) in names {
        let p = ConnectionProfile { protocol: Protocol::Gool, noize: n, ..Default::default() };
        let args = p.to_args();
        assert_eq!(args[0], "--gool");
        assert_eq!(args[4], "--noize");
        assert_eq!(args[5], name);
    }
}

#[test]
fn keepalive_is_decimal() {
    let p = ConnectionProfile { keepalive: 1234567, ..Default::default() };
    assert_eq!(p.to_args(), vec!["--balanced", "-4", "--quick-reconnect", "--keepalive", "1234567"]);
}

#[test]
fn env_without_manual_range() {
    let p = ConnectionProfile::default();
    assert_eq!(p.to_env(), vec![("AETHER_MASQUE_HTTP2".to_string(), "0".to_string())]);
    let q = ConnectionProfile { masque_http2: true, manual_range: "10.0.0.0/8".into(), ..Default::default() };
    assert_eq!(q.to_env(), vec![("AETHER_MASQUE_HTTP2".to_string(), "1".to_string())]);
}

#[test]
fn env_with_manual_range_is_sorted_and_trimmed() {
    let p = ConnectionProfile {
        endpoint_mode: EndpointMode::ManualRange,
        manual_range: " 162.159.192.0/24 ".into(),
        ..Default::default()
    };
    let r = "162.159.192.0/24".to_string();
    assert_eq!(
        p.to_env(),
        vec![
            ("AETHER_MASQUE_CIDRS".to_string(), r.clone()),
            ("AETHER_MASQUE_HTTP2".to_string(), "0".to_string()),
            ("AETHER_SCAN_CIDRS".to_string(), r.clone()),
            ("AETHER_WG_CIDRS".to_string(), r),
        ]
    );
}

#[test]
fn clone_keeps_every_field() {
    let p = ConnectionProfile {
        split_apps: vec!["chrome.exe".to_string(), "telegram.exe".to_string()],
        manual_range: "x".into(),
        lan_share: true,
        ..Default::default()
    };
    let q = p.clone();
    assert_eq!(p, q);
}
