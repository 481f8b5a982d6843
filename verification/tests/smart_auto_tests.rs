use aether::profile::{ConnectionProfile, EndpointMode, IpVersion, Noize, Protocol, ScanMode};
use aether::smart_auto::{build_plan, harden, next_after, pick, plan_summary};

#[test]
fn auto_never_reaches_the_engine() {
    let p = ConnectionProfile::default();
    assert_ne!(pick(&p), Protocol::Smart);
    for c in build_plan(&p, false) {
        assert_ne!(c.profile.protocol, Protocol::Smart);
    }
}

#[test]
fn explicit_protocol_is_respected() {
    let p = ConnectionProfile { protocol: Protocol::Wireguard, ..Default::default() };
    assert_eq!(pick(&p), Protocol::Wireguard);
    for c in build_plan(&p, false) {
        assert_eq!(c.profile.protocol, Protocol::Wireguard);
    }
}

#[test]
fn fallback_order_matches_android() {
    assert_eq!(next_after(Protocol::Masque), Some(Protocol::Gool));
    assert_eq!(next_after(Protocol::Gool), Some(Protocol::Wireguard));
    assert_eq!(next_after(Protocol::Wireguard), None);
}

#[test]
fn direct_plan_has_a_hardened_second_pass() {
    let p = ConnectionProfile { protocol: Protocol::Gool, ..Default::default() };
    let plan = build_plan(&p, false);
    assert_eq!(plan.len(), 2);
    assert_eq!(plan[0].profile.noize, Noize::Off);
    assert_eq!(plan[1].profile.noize, Noize::Firewall);
    assert_eq!(plan[0].profile.protocol, plan[1].profile.protocol);
}

#[test]
fn smart_fallback_of_smart_is_none() {
    assert_eq!(next_after(Protocol::Smart), None);
}

#[test]
fn smart_ladder_order_and_timeouts() {
    let p = ConnectionProfile::default();
    let plan = build_plan(&p, false);
    let labels: Vec<&str> = plan.iter().map(|c| c.label.as_str()).collect();
    assert_eq!(
        labels,
        vec![
            "MASQUE · as configured",
            "MASQUE · hardened anti-DPI",
            "GOOL · hardened anti-DPI",
            "WIREGUARD · hardened anti-DPI",
        ]
    );
    let timeouts: Vec<u64> = plan.iter().map(|c| c.timeout_ms).collect();
    assert_eq!(timeouts, vec![35_000, 120_000, 120_000, 150_000]);
    assert_eq!(plan[1].profile.noize, Noize::Firewall);
    assert!(plan[1].profile.masque_http2 && plan[1].profile.fragment && plan[1].profile.ech);
    assert!(!plan[2].profile.fragment);
    assert_eq!(plan[2].profile.noize, Noize::Firewall);
}

#[test]
fn ipv6_only_leads_with_wireguard() {
    let p = ConnectionProfile { ip_version: IpVersion::V6, scan_mode: ScanMode::Turbo, ..Default::default() };
    let plan = build_plan(&p, false);
    let protos: Vec<Protocol> = plan.iter().map(|c| c.profile.protocol).collect();
    assert_eq!(protos, vec![Protocol::Wireguard, Protocol::Wireguard, Protocol::Masque, Protocol::Gool]);
    let timeouts: Vec<u64> = plan.iter().map(|c| c.timeout_ms).collect();
    assert_eq!(timeouts, vec![35_000, 60_000, 60_000, 60_000]);
    assert_eq!(pick(&p), Protocol::Wireguard);
}

#[test]
fn hostile_network_leads_with_hardened_pass() {
    let p = ConnectionProfile { protocol: Protocol::Masque, ..Default::default() };
    let calm = build_plan(&p, false);
    let hostile = build_plan(&p, true);
    assert_eq!(hostile.len(), 2);
    assert_eq!(hostile[0].label, calm[1].label);
    assert_eq!(hostile[1].label, calm[0].label);
    assert_eq!(hostile[0].label, "MASQUE · hardened anti-DPI");
    assert_eq!(hostile[0].timeout_ms, 150_000);
    assert_eq!(hostile[1].timeout_ms, 75_000);
}

#[test]
fn already_hardened_profile_gets_one_pass() {
    let p = ConnectionProfile { protocol: Protocol::Wireguard, noize: Noize::Light, ..Default::default() };
    let plan = build_plan(&p, true);
    assert_eq!(plan.len(), 1);
    assert_eq!(plan[0].timeout_ms, 150_000);
    assert_eq!(plan[0].label, "WIREGUARD · as configured");
    let m = ConnectionProfile {
        protocol: Protocol::Masque,
        noize: Noize::Gfw,
        masque_http2: true,
        fragment: true,
        ech: true,
        ..Default::default()
    };
    assert_eq!(build_plan(&m, false).len(), 1);
}

#[test]
fn manual_peer_smart_picks_masque() {
    let p = ConnectionProfile {
        endpoint_mode: EndpointMode::ManualPeer,
        manual_peer: "1.2.3.4:2408".into(),
        ip_version: IpVersion::V6,
        ..Default::default()
    };
    assert_eq!(pick(&p), Protocol::Masque);
    let plan = build_plan(&p, false);
    assert_eq!(plan[0].timeout_ms, 35_000);
    assert_eq!(plan[3].timeout_ms, 45_000);
}

#[test]
fn planning_keeps_the_users_other_settings() {
    let p = ConnectionProfile {
        split_apps: vec!["a.exe".to_string()],
        mtu: 1420,
        keepalive: 10,
        lan_share: true,
        ..Default::default()
    };
    for c in build_plan(&p, true) {
        assert_eq!(c.profile.split_apps, p.split_apps);
        assert_eq!(c.profile.mtu, 1420);
        assert_eq!(c.profile.keepalive, 10);
        assert!(c.profile.lan_share);
    }
}

#[test]
fn plan_summary_lists_the_steps() {
    let p = ConnectionProfile { protocol: Protocol::Gool, ..Default::default() };
    let plan = build_plan(&p, false);
    assert_eq!(
        plan_summary(&plan),
        "Plan ready (2 attempt(s)): GOOL · as configured → GOOL · hardened anti-DPI"
    );
    assert_eq!(plan_summary(&Vec::new()), "Plan ready (0 attempt(s)): ");
}

#[test]
fn manual_first_pass_is_capped_at_75_seconds() {
    let u = ConnectionProfile { protocol: Protocol::Wireguard, ..Default::default() };
    assert_eq!(u.connect_timeout_ms(), 150_000);
    let plan = build_plan(&u, false);
    assert_eq!(plan.len(), 2);
    assert_eq!(plan[0].profile, u);
    assert_eq!(plan[0].timeout_ms, 75_000);
    assert_eq!(plan[1].profile.noize, Noize::Firewall);
    assert_eq!(plan[1].timeout_ms, 150_000);
    let turbo = ConnectionProfile { protocol: Protocol::Gool, scan_mode: ScanMode::Turbo, ..Default::default() };
    assert_eq!(build_plan(&turbo, false)[0].timeout_ms, 60_000);
}

#[test]
fn hardening_is_idempotent() {
    let plain = ConnectionProfile { protocol: Protocol::Masque, ..Default::default() };
    let h = harden(&plain);
    assert_eq!(harden(&h), h);
    assert_ne!(h, plain);
    assert_eq!(h.noize, Noize::Firewall);
    assert!(h.masque_http2 && h.fragment && h.ech);
    let done = ConnectionProfile { protocol: Protocol::Gool, noize: Noize::Light, ..Default::default() };
    assert_eq!(harden(&done), done);
}
