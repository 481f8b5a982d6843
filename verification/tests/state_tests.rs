use aether::diagnostics::{IpInfo, SelfTestOutcome};
use aether::profile::{ConnectionProfile, Protocol};
use aether::state::{Action, AetherController, ConnectionState, IpSlot, TickFacts, MAX_RETRIES};

fn effects(acts: &[Action]) -> Vec<&Action> {
    acts.iter().filter(|a| !matches!(a, Action::Log { .. })).collect()
}

fn facts(alive: bool, socks: bool) -> TickFacts {
    TickFacts { engine_alive: alive, socks_ready: socks, verify_outcome: None, latency_sample: None }
}

fn passing(ip: &str) -> SelfTestOutcome {
    SelfTestOutcome {
        ok: true,
        exit: Some(IpInfo { ip: ip.to_string(), country_code: Some("NL".to_string()) }),
        latency_ms: Some(80),
    }
}

#[test]
fn busy_and_active_states() {
    for s in [
        ConnectionState::StartingEngine,
        ConnectionState::Connecting,
        ConnectionState::Verifying,
        ConnectionState::Reconnecting,
        ConnectionState::Disconnecting,
    ] {
        assert!(s.is_busy() && s.is_active());
    }
    assert!(!ConnectionState::Connected.is_busy() && ConnectionState::Connected.is_active());
    for s in [ConnectionState::Disconnected, ConnectionState::Failed] {
        assert!(!s.is_busy() && !s.is_active());
    }
}

#[test]
fn startup_clears_proxy_and_looks_up_ip() {
    let (c, acts) = AetherController::new(ConnectionProfile::default());
    assert_eq!(c.state(), ConnectionState::Disconnected);
    let e = effects(&acts);
    assert!(matches!(e[0], Action::Teardown));
    assert!(matches!(e[1], Action::LookupIp { via_tunnel: false }));
}

fn connect(c: &mut AetherController) {
    assert!(c.toggle_connects());
    let acts = c.toggle(false);
    assert_eq!(c.state(), ConnectionState::StartingEngine);
    assert!(matches!(effects(&acts).last(), Some(Action::LaunchEngine { .. })));
    let acts = c.on_launch(1_000, Ok(()));
    assert!(effects(&acts).iter().all(|a| !matches!(a, Action::LaunchEngine { .. })));
    assert_eq!(c.state(), ConnectionState::Connecting);
}

#[test]
fn full_connection_lifecycle() {
    let (mut c, _) = AetherController::new(ConnectionProfile::default());
    connect(&mut c);
    assert!(c.needs_socks_probe(true));
    let acts = c.tick(2_000, facts(true, false));
    assert!(effects(&acts).is_empty());
    let acts = c.tick(3_000, facts(true, true));
    assert_eq!(c.state(), ConnectionState::Verifying);
    let e = effects(&acts);
    assert!(matches!(e[0], Action::BringUpDataPath { .. }));
    // deadline = 1000 + 35000 ms: 33 s left.
    assert!(matches!(e[1], Action::BeginVerification { grace_ms: 33_000 }));
    assert!(c.awaits_verification());
    let mut f = facts(true, false);
    f.verify_outcome = Some(passing("162.159.1.2"));
    let acts = c.tick(4_000, f);
    assert_eq!(c.state(), ConnectionState::Connected);
    assert!(matches!(effects(&acts)[0], Action::OfferTunnelIp { .. }));
    let snap = c.snapshot(9_500, (10, 20), (1, 2), None, None, None, false);
    assert_eq!(snap.state, ConnectionState::Connected);
    assert_eq!(snap.endpoint.as_deref(), Some("162.159.1.2 · NL"));
    assert_eq!(snap.protocol.as_deref(), Some("MASQUE"));
    assert_eq!(snap.latency_ms, Some(80));
    assert_eq!(snap.uptime_secs, 5);
    assert_eq!((snap.rx_bytes, snap.tx_bytes), (11, 22));
    let acts = c.tick(5_000, facts(true, false));
    assert!(matches!(effects(&acts)[0], Action::ProbeLatency));
    let mut f = facts(true, false);
    f.latency_sample = Some(33);
    let acts = c.tick(6_000, f);
    assert!(effects(&acts).is_empty());
    assert_eq!(c.snapshot(6_000, (0, 0), (0, 0), None, None, None, false).latency_ms, Some(33));
    let acts = c.toggle(false);
    assert_eq!(c.state(), ConnectionState::Disconnected);
    let e = effects(&acts);
    assert!(e.iter().any(|a| matches!(a, Action::Teardown)));
    assert!(matches!(e.last(), Some(Action::LookupIp { via_tunnel: false })));
}

#[test]
fn launch_failure_fails_with_the_message() {
    let (mut c, _) = AetherController::new(ConnectionProfile::default());
    let _ = c.toggle(false);
    let acts = c.on_launch(0, Err("Engine binary missing: x".to_string()));
    assert_eq!(c.state(), ConnectionState::Failed);
    assert!(matches!(effects(&acts)[0], Action::Teardown));
    let s = c.snapshot(0, (0, 0), (0, 0), None, None, None, false);
    assert_eq!(s.error.as_deref(), Some("Engine binary missing: x"));
    assert_eq!(s.detail, "Connection failed");
    assert!(effects(&c.tick(10, facts(false, false))).is_empty());
    assert_eq!(c.state(), ConnectionState::Failed);
}

#[test]
fn ladder_advances_then_fails() {
    let p = ConnectionProfile { protocol: Protocol::Gool, ..Default::default() };
    let (mut c, _) = AetherController::new(p);
    connect(&mut c);
    // The engine dies: the hardened second pass starts.
    let acts = c.tick(2_000, facts(false, false));
    let e = effects(&acts);
    assert!(matches!(e[0], Action::Teardown));
    assert!(matches!(e[1], Action::ResetChecks));
    match e.last() {
        Some(Action::LaunchEngine { profile }) => assert_eq!(profile.noize, aether::profile::Noize::Firewall),
        _ => panic!("expected a launch"),
    }
    let _ = c.on_launch(2_000, Ok(()));
    // The second pass times out: the ladder is exhausted.
    let acts = c.tick(2_000 + 150_001, facts(true, false));
    assert_eq!(c.state(), ConnectionState::Failed);
    assert!(effects(&acts).iter().all(|a| !matches!(a, Action::LaunchEngine { .. })));
    let s = c.snapshot(0, (0, 0), (0, 0), None, None, None, false);
    assert!(s.error.unwrap().starts_with("This protocol could not establish"));
}

#[test]
fn engine_death_restarts_after_backoff() {
    let (mut c, _) = AetherController::new(ConnectionProfile::default());
    connect(&mut c);
    let _ = c.tick(2_000, facts(true, true));
    let mut f = facts(true, false);
    f.verify_outcome = Some(passing("1.2.3.4"));
    let _ = c.tick(3_000, f);
    let mut now = 3_000;
    for _round in 0..4 {
        now += 1_000;
        let _ = c.tick(now, facts(false, false));
        assert_eq!(c.state(), ConnectionState::Reconnecting);
        let s = c.snapshot(now, (0, 0), (0, 0), None, None, None, false);
        // A passing self-test resets the restart budget, so every death is attempt 1.
        assert_eq!(s.detail, "Attempt 1 of 5");
        assert_eq!(MAX_RETRIES, 5);
        assert_eq!(s.uptime_secs, 0);
        assert!(effects(&c.tick(now + 1_999, facts(false, false))).is_empty());
        now += 2_000;
        let acts = c.tick(now, facts(false, false));
        let e = effects(&acts);
        assert!(matches!(e[0], Action::Teardown));
        assert!(matches!(e.last(), Some(Action::LaunchEngine { .. })));
        let _ = c.on_launch(now, Ok(()));
        let _ = c.tick(now, facts(true, true));
        let mut f = facts(true, false);
        f.verify_outcome = Some(SelfTestOutcome { ok: true, exit: None, latency_ms: None });
        let acts = c.tick(now, f);
        assert!(matches!(effects(&acts).last(), Some(Action::LookupIp { via_tunnel: true })));
        assert_eq!(c.state(), ConnectionState::Connected);
    }
}

#[test]
fn lan_toggle_restarts_bridge_only_when_active() {
    let (mut c, _) = AetherController::new(ConnectionProfile::default());
    let acts = c.set_profile(ConnectionProfile { lan_share: true, ..Default::default() });
    assert!(effects(&acts).is_empty());
    assert!(c.profile().lan_share);
    connect(&mut c);
    let acts = c.set_profile(ConnectionProfile { lan_share: false, ..Default::default() });
    assert!(matches!(effects(&acts)[0], Action::RestartShare { lan: false }));
}

#[test]
fn failed_self_test_advances_the_ladder() {
    let (mut c, _) = AetherController::new(ConnectionProfile::default());
    connect(&mut c);
    let _ = c.tick(2_000, facts(true, true));
    let mut f = facts(true, false);
    f.verify_outcome = Some(SelfTestOutcome { ok: false, exit: None, latency_ms: None });
    let acts = c.tick(2_500, f);
    assert_eq!(c.state(), ConnectionState::Verifying);
    assert!(!c.awaits_verification());
    assert!(matches!(effects(&acts).last(), Some(Action::LaunchEngine { .. })));
    let _ = c.on_launch(2_600, Ok(()));
    assert_eq!(c.state(), ConnectionState::Connecting);
}

#[test]
fn failed_launch_logs_then_tears_down() {
    let (mut c, _) = AetherController::new(ConnectionProfile::default());
    let _ = c.toggle(false);
    let acts = c.on_launch(0, Err("Engine binary missing: x".to_string()));
    assert_eq!(acts.len(), 4);
    assert!(matches!(&acts[0], Action::Log { level: 'E', tag, msg } if tag == "state" && msg == "Engine binary missing: x"));
    assert!(matches!(acts[1], Action::Teardown));
    assert!(matches!(&acts[2], Action::Log { level: 'I', tag, msg } if tag == "state" && msg == "Failed Connection failed"));
    assert!(matches!(acts[3], Action::LookupIp { via_tunnel: false }));
}

#[test]
fn successful_launch_waits_for_the_port() {
    let p = ConnectionProfile { protocol: Protocol::Gool, ..Default::default() };
    let (mut c, _) = AetherController::new(p);
    let acts = c.toggle(false);
    assert!(matches!(&acts[0], Action::ResetChecks));
    assert!(matches!(&acts[1], Action::Log { level: 'I', msg, .. } if msg == "StartingEngine Starting engine…"));
    assert!(matches!(&acts[2], Action::ClearIp));
    assert!(matches!(&acts[3], Action::Log { msg, .. } if msg.starts_with("Connect requested — protocol=Gool scan=")));
    assert!(matches!(&acts[4], Action::Log { tag, msg, .. } if tag == "auto" && msg.starts_with("Plan ready (2 attempt(s)): GOOL · as configured → ")));
    assert!(matches!(&acts[5], Action::Log { msg, .. } if msg == "Attempt 1/2 → GOOL · as configured"));
    assert!(matches!(&acts[6], Action::LaunchEngine { .. }));
    assert_eq!(acts.len(), 7);
    let acts = c.on_launch(1_000, Ok(()));
    assert!(matches!(&acts[0], Action::Log { msg, .. } if msg == "Connecting Connecting…"));
    assert!(matches!(&acts[1], Action::ClearIp));
    assert!(matches!(&acts[2], Action::Log { msg, .. } if msg == "Waiting for SOCKS5 on 127.0.0.1:1819… (timeout=75s)"));
    assert_eq!(acts.len(), 3);
}

#[test]
fn stale_address_lookups_are_dropped() {
    let mut slot = IpSlot::new();
    let first = slot.begin_lookup(false);
    let second = slot.begin_lookup(false);
    assert_ne!(first, second);
    let stale = IpInfo { ip: "192.0.2.1".to_string(), country_code: None };
    assert!(!slot.finish_lookup(first, false, Some(stale)));
    let (info, loading) = slot.read();
    assert!(info.is_none() && loading);
    let fresh = IpInfo { ip: "192.0.2.2".to_string(), country_code: Some("FR".to_string()) };
    assert!(slot.finish_lookup(second, false, Some(fresh)));
    let (info, loading) = slot.read();
    let info = info.expect("the newest lookup is shown");
    assert_eq!(info.ip, "192.0.2.2");
    assert!(!info.via_tunnel && !loading);
    let pending = slot.begin_lookup(true);
    slot.offer_tunnel_ip("198.51.100.9".to_string(), Some("NL".to_string()));
    assert!(!slot.finish_lookup(pending, true, None));
    let (info, _) = slot.read();
    assert!(info.expect("the offered address").via_tunnel);
    slot.clear();
    assert!(slot.read().0.is_none());
}
