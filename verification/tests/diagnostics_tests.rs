use aether::diagnostics::{
    mask_ip, parse_trace, reset_checks, run, EnvFacts, IpInfo, SelfTest, Verdict, C_DNS, C_HANDSHAKE, C_PORT,
    C_TCP,
};
use aether::log::{DiagnosticsLog, MAX_LINES};
use aether::profile::ConnectionProfile;

#[test]
fn reset_populates_the_four_android_checks() {
    let mut log = DiagnosticsLog::new();
    reset_checks(&mut log);
    let checks = log.checks();
    assert_eq!(checks.len(), 4);
    assert!(checks.iter().all(|c| c.state == "PENDING"));
}

#[test]
fn reset_labels_and_ids() {
    let mut log = DiagnosticsLog::new();
    reset_checks(&mut log);
    let checks = log.checks();
    let ids: Vec<&str> = checks.iter().map(|c| c.id.as_str()).collect();
    assert_eq!(ids, vec![C_PORT, C_HANDSHAKE, C_TCP, C_DNS]);
    assert_eq!(checks[0].label, "SOCKS5 port 127.0.0.1:1819");
    assert_eq!(checks[3].label, "DNS + HTTP via tunnel");
    assert!(checks.iter().all(|c| c.detail.is_empty()));
}

fn healthy_facts() -> EnvFacts {
    EnvFacts {
        engine_exe: Some(("C:\\Aether\\engine\\aether.exe".to_string(), true)),
        wintun_present: true,
        elevated: true,
        socks_listening: true,
        egress: Some(("1.1.1.1:80".to_string(), 42)),
    }
}

#[test]
fn report_always_has_every_check() {
    let facts = EnvFacts {
        engine_exe: None,
        wintun_present: false,
        elevated: true,
        socks_listening: false,
        egress: None,
    };
    let r = run(&facts, &ConnectionProfile::default());
    assert_eq!(r.checks.len(), 6);
    assert!(!r.summary.is_empty());
}

#[test]
fn healthy_report() {
    let r = run(&healthy_facts(), &ConnectionProfile::default());
    assert!(r.checks.iter().all(|c| c.verdict == Verdict::Pass));
    assert_eq!(r.summary, "Everything looks healthy");
    assert_eq!(r.checks[3].detail, "127.0.0.1:1819");
    assert_eq!(r.checks[4].detail, "1.1.1.1:80 in 42 ms");
    assert_eq!(r.checks[5].detail, "MTU 1280");
}

#[test]
fn warnings_and_failures_are_counted() {
    let mut f = healthy_facts();
    f.wintun_present = false;
    f.elevated = false;
    let r = run(&f, &ConnectionProfile::default());
    assert_eq!(r.summary, "2 warning(s), nothing blocking");
    f.engine_exe = Some(("x\\aether.exe".to_string(), false));
    let r = run(&f, &ConnectionProfile { mtu: 100, ..Default::default() });
    assert_eq!(r.checks[0].verdict, Verdict::Fail);
    assert_eq!(r.checks[0].detail, "Missing: x\\aether.exe");
    assert_eq!(r.checks[5].verdict, Verdict::Warn);
    assert_eq!(r.checks[5].detail, "Unusual MTU: 100");
    assert_eq!(r.summary, "1 blocking problem(s) found");
}

#[test]
fn mtu_bounds_are_inclusive() {
    for (mtu, ok) in [(575, false), (576, true), (9000, true), (9001, false)] {
        let r = run(&healthy_facts(), &ConnectionProfile { mtu, ..Default::default() });
        assert_eq!(r.checks[5].verdict == Verdict::Pass, ok);
    }
}

#[test]
fn masking_ip_addresses() {
    assert_eq!(mask_ip("1.2.3.4"), "1.2.3.xxx");
    assert_eq!(mask_ip("2001:db8:85a3:0:0:8a2e:370:7334"), "2001:db8:85a3::xxxx");
    assert_eq!(mask_ip("2001::1"), "2001:0:0::xxxx");
    assert_eq!(mask_ip("fe80::1"), "fe80:0:0::xxxx");
    assert_eq!(mask_ip("::1"), "0:0:0::xxxx");
    assert_eq!(mask_ip("1::2:3:4:5:6:7"), "1:0:2::xxxx");
    assert_eq!(mask_ip("2606:4700::6810:84e5"), "2606:4700:0::xxxx");
    assert_eq!(mask_ip("localhost"), "localhost");
    assert_eq!(mask_ip(""), "");
}

#[test]
fn log_lines_have_timestamp_level_and_tag() {
    let mut log = DiagnosticsLog::new();
    log.i(1700000000123, "state", "hello");
    log.e(5, "diag", "bad");
    assert_eq!(log.tail(10), vec!["1700000000123 I/state: hello", "5 E/diag: bad"]);
    assert_eq!(log.export_text(), "1700000000123 I/state: hello\n5 E/diag: bad");
    assert_eq!(log.tail(1), vec!["5 E/diag: bad"]);
    assert_eq!(log.take_pending().len(), 2);
    assert!(log.take_pending().is_empty());
    log.clear();
    assert!(log.tail(10).is_empty());
    assert_eq!(log.export_text(), "");
}

#[test]
fn ring_keeps_the_newest_lines() {
    let mut log = DiagnosticsLog::new();
    for k in 0..(MAX_LINES as u64 + 5) {
        log.d(k, "t", "m");
    }
    let all = log.tail(usize::MAX);
    assert_eq!(all.len(), MAX_LINES);
    assert_eq!(all[0], "5 D/t: m");
    assert_eq!(all[MAX_LINES - 1], format!("{} D/t: m", MAX_LINES + 4));
}

#[test]
fn update_check_changes_only_the_matching_row() {
    let mut log = DiagnosticsLog::new();
    reset_checks(&mut log);
    log.update_check(C_TCP, "PASS", Some("connected"));
    log.update_check("unknown", "FAIL", Some("x"));
    log.update_check(C_TCP, "RUNNING", None);
    let c = log.checks();
    assert_eq!(c[2].state, "RUNNING");
    assert_eq!(c[2].detail, "connected");
    assert!(c.iter().enumerate().all(|(i, r)| i == 2 || r.state == "PENDING"));
}

#[test]
fn self_test_closed_port_fails_everything() {
    let mut log = DiagnosticsLog::new();
    let mut t = SelfTest::begin(&mut log, 1);
    assert_eq!(log.checks()[0].state, "RUNNING");
    let out = t.port_checked(&mut log, 2, false).expect("finished");
    assert!(!out.ok && out.exit.is_none() && out.latency_ms.is_none());
    let c = log.checks();
    assert!(c.iter().all(|r| r.state == "FAIL"));
    assert_eq!(c[0].detail, "no listener");
    assert_eq!(c[1].detail, "skipped");
}

#[test]
fn self_test_passes_with_dns() {
    let mut log = DiagnosticsLog::new();
    let mut t = SelfTest::begin(&mut log, 1);
    assert!(t.port_checked(&mut log, 2, true).is_none());
    t.handshake_checked(&mut log, 3, true);
    assert!(t.wants_tcp() && t.wants_dns());
    t.record_tcp(&mut log, 4, true);
    t.record_dns(
        &mut log,
        5,
        Some(IpInfo { ip: "104.28.1.2".to_string(), country_code: Some("DE".to_string()) }),
        321,
    );
    assert!(t.complete());
    let out = t.finish(&mut log, 6);
    assert!(out.ok);
    assert_eq!(out.latency_ms, Some(321));
    assert_eq!(out.exit.unwrap().ip, "104.28.1.2");
    let c = log.checks();
    assert!(c.iter().all(|r| r.state == "PASS"));
    assert_eq!(c[3].detail, "exit 104.28.1.2 DE");
    assert!(log.tail(100).iter().any(|l| l == "5 I/diag: DNS+HTTP via tunnel: OK — exit 104.28.1.xxx DE (321 ms)"));
}

#[test]
fn self_test_without_dns_fails() {
    let mut log = DiagnosticsLog::new();
    let mut t = SelfTest::begin(&mut log, 1);
    t.port_checked(&mut log, 2, true);
    t.handshake_checked(&mut log, 3, false);
    t.record_tcp(&mut log, 4, false);
    t.record_dns(&mut log, 5, None, 0);
    assert!(!t.complete());
    let out = t.finish(&mut log, 6);
    assert!(!out.ok);
    let c = log.checks();
    assert_eq!(c[1].state, "FAIL");
    assert_eq!(c[2].state, "FAIL");
    assert_eq!(c[3].state, "FAIL");
    assert_eq!(c[3].detail, "no HTTP response through the tunnel");
    assert!(log.tail(1)[0].ends_with("No outbound path at all — the tunnel has no upstream yet."));
}

#[test]
fn trace_answers_are_parsed() {
    let body = "fl=12f1\nh=1.1.1.1\nip=203.0.113.7 \r\nts=1.5\nloc=DE\nwarp=on\n";
    let info = parse_trace(body).expect("an ip= line");
    assert_eq!(info.ip, "203.0.113.7");
    assert_eq!(info.country_code.as_deref(), Some("DE"));
    let info = parse_trace("loc=  \nip=198.51.100.1").expect("an ip= line");
    assert_eq!(info.ip, "198.51.100.1");
    assert_eq!(info.country_code, None);
    assert!(parse_trace("loc=NL\nh=x\n").is_none());
    assert!(parse_trace("").is_none());
}

#[test]
fn push_evicts_the_oldest_line_when_full() {
    let mut log = DiagnosticsLog::new();
    for k in 0..(MAX_LINES as u64) {
        log.push('I', k, "t", "m");
    }
    assert_eq!(log.tail(usize::MAX).len(), MAX_LINES);
    log.push('W', 9_999, "tag", "last");
    let all = log.tail(usize::MAX);
    assert_eq!(all.len(), MAX_LINES);
    assert_eq!(all[0], "1 I/t: m");
    assert_eq!(all[MAX_LINES - 1], "9999 W/tag: last");
    assert_eq!(log.take_pending().len(), MAX_LINES + 1);
}

#[test]
fn ipv6_exit_stays_out_of_the_log() {
    let mut log = DiagnosticsLog::new();
    let mut t = SelfTest::begin(&mut log, 1);
    t.port_checked(&mut log, 2, true);
    t.handshake_checked(&mut log, 3, true);
    t.record_dns(&mut log, 4, Some(IpInfo { ip: "2001::1".to_string(), country_code: None }), 90);
    let c = log.checks();
    assert_eq!(c[3].detail, "exit 2001::1 ??");
    let line = log.tail(1).pop().unwrap();
    assert_eq!(line, "4 I/diag: DNS+HTTP via tunnel: OK — exit 2001:0:0::xxxx ?? (90 ms)");
    assert!(!line.contains("2001::1"));
    assert!(log.take_pending().iter().all(|l| !l.contains("2001::1")));
}
