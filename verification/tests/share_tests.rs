use aether::engine::{LOCAL_SOCKS_PORT, SHARE_HTTP_PORT, SHARE_SOCKS_PORT};
use aether::share::{
    find_subsequence, is_lan_address, peer_allowed, route_http_head, route_http_text, scan_head,
    sniff_protocol, split_host_port, BridgeProtocol, HeadScan, HttpRoute, IpAddress, ShareBridge,
};

#[test]
fn endpoints_are_none_until_started() {
    let b = ShareBridge::new();
    assert!(b.socks_endpoint().is_none());
    assert!(b.http_endpoint().is_none());
    assert!(!b.is_running());
}

#[test]
fn ports_match_the_android_values() {
    assert_eq!(SHARE_SOCKS_PORT, 10810);
    assert_eq!(SHARE_HTTP_PORT, 10811);
}

#[test]
fn host_port_splitting() {
    assert_eq!(split_host_port("example.com:8443", 443), ("example.com".to_string(), 8443));
    assert_eq!(split_host_port("example.com", 80), ("example.com".to_string(), 80));
}

#[test]
fn host_port_edge_cases() {
    assert_eq!(split_host_port("example.com:99999", 443), ("example.com:99999".to_string(), 443));
    assert_eq!(split_host_port("example.com:", 443), ("example.com:".to_string(), 443));
    assert_eq!(split_host_port("example.com:+81", 443), ("example.com".to_string(), 81));
    assert_eq!(split_host_port("[::1]:8080", 80), ("[::1]".to_string(), 8080));
    assert_eq!(split_host_port("a:b:65535", 1), ("a:b".to_string(), 65535));
}

#[test]
fn only_local_peers_are_allowed() {
    assert!(peer_allowed(IpAddress::V4([127, 0, 0, 1])));
    assert!(peer_allowed(IpAddress::V4([192, 168, 1, 20])));
    assert!(peer_allowed(IpAddress::V4([10, 4, 5, 6])));
    assert!(!peer_allowed(IpAddress::V4([8, 8, 8, 8])));
    assert!(!peer_allowed(IpAddress::V6([0x2001, 0x4860, 0x4860, 0, 0, 0, 0, 0x8888])));
}

#[test]
fn peer_ranges() {
    assert!(peer_allowed(IpAddress::V4([172, 16, 0, 1])));
    assert!(peer_allowed(IpAddress::V4([172, 31, 255, 255])));
    assert!(!peer_allowed(IpAddress::V4([172, 32, 0, 1])));
    assert!(peer_allowed(IpAddress::V4([169, 254, 3, 4])));
    assert!(peer_allowed(IpAddress::V6([0, 0, 0, 0, 0, 0, 0, 1])));
}

#[test]
fn lan_addresses() {
    assert!(is_lan_address(IpAddress::V4([192, 168, 0, 7])));
    assert!(!is_lan_address(IpAddress::V4([127, 0, 0, 1])));
    assert!(!is_lan_address(IpAddress::V4([0, 0, 0, 0])));
    assert!(!is_lan_address(IpAddress::V4([1, 1, 1, 1])));
    assert!(!is_lan_address(IpAddress::V6([0xfe80, 0, 0, 0, 0, 0, 0, 1])));
}

#[test]
fn first_byte_decides_the_protocol() {
    assert_eq!(sniff_protocol(0x05), BridgeProtocol::Socks5);
    assert_eq!(sniff_protocol(b'G'), BridgeProtocol::Http);
    assert_eq!(sniff_protocol(b'C'), BridgeProtocol::Http);
}

#[test]
fn connect_requests() {
    match route_http_text("CONNECT example.com:8443 HTTP/1.1\r\nHost: example.com\r\n\r\n") {
        HttpRoute::Connect { host, port } => {
            assert_eq!(host, "example.com");
            assert_eq!(port, 8443);
        }
        other => panic!("unexpected {other:?}"),
    }
    match route_http_text("connect example.org HTTP/1.1\r\n\r\n") {
        HttpRoute::Connect { host, port } => {
            assert_eq!(host, "example.org");
            assert_eq!(port, 443);
        }
        other => panic!("unexpected {other:?}"),
    }
}

#[test]
fn absolute_form_is_rewritten() {
    let head = "GET http://example.com:8080/a/b?c=1 HTTP/1.1\r\nHost: example.com\r\nProxy-Connection: keep-alive\r\nPROXY-AUTHORIZATION: Basic x\r\nAccept: */*\r\n\r\n";
    match route_http_text(head) {
        HttpRoute::Forward { host, port, head } => {
            assert_eq!(host, "example.com");
            assert_eq!(port, 8080);
            assert_eq!(head, "GET /a/b?c=1 HTTP/1.1\r\nHost: example.com\r\nAccept: */*\r\n\r\n");
        }
        other => panic!("unexpected {other:?}"),
    }
    match route_http_text("GET http://example.com HTTP/1.0\r\n\r\n") {
        HttpRoute::Forward { host, port, head } => {
            assert_eq!(host, "example.com");
            assert_eq!(port, 80);
            assert_eq!(head, "GET / HTTP/1.0\r\n\r\n");
        }
        other => panic!("unexpected {other:?}"),
    }
}

#[test]
fn bad_requests() {
    assert!(matches!(route_http_text("GET /\r\n\r\n"), HttpRoute::BadRequest));
    assert!(matches!(route_http_text("GET https://x/ HTTP/1.1\r\n\r\n"), HttpRoute::BadRequest));
    assert!(matches!(route_http_text(""), HttpRoute::Drop));
}

#[test]
fn raw_heads_are_decoded() {
    match route_http_head(b"CONNECT 1.1.1.1:443 HTTP/1.1\r\n\r\n") {
        HttpRoute::Connect { host, port } => {
            assert_eq!(host, "1.1.1.1");
            assert_eq!(port, 443);
        }
        other => panic!("unexpected {other:?}"),
    }
    match route_http_head(b"CONNECT \xff:443 HTTP/1.1\r\n\r\n") {
        HttpRoute::Connect { host, .. } => assert_eq!(host, "\u{fffd}"),
        other => panic!("unexpected {other:?}"),
    }
}

#[test]
fn head_scanning() {
    match scan_head(b"GET / HTTP/1.1\r\n\r\nbody") {
        HeadScan::Complete { head, rest } => {
            assert_eq!(head, b"GET / HTTP/1.1\r\n\r\n".to_vec());
            assert_eq!(rest, b"body".to_vec());
        }
        other => panic!("unexpected {other:?}"),
    }
    assert!(matches!(scan_head(b"GET / HTTP/1.1\r\n"), HeadScan::NeedMore));
    assert!(matches!(scan_head(&vec![b'a'; 40_000]), HeadScan::TooLarge));
    assert_eq!(find_subsequence(b"ab\r\n\r\n\r\n\r\n", b"\r\n\r\n"), Some(2));
    assert_eq!(find_subsequence(b"ab", b"\r\n\r\n"), None);
}

#[test]
fn bridge_binds_and_endpoints() {
    let mut b = ShareBridge::new();
    let binds = b.begin_start(10810, 10811, false, Some([192, 168, 1, 5]));
    assert_eq!(binds, vec![(IpAddress::V4([127, 0, 0, 1]), 10811), (IpAddress::V4([127, 0, 0, 1]), 10810)]);
    assert!(b.is_running());
    assert!(b.socks_endpoint().is_none());
    assert_eq!(b.start_result(&vec![true, true]), Ok("Bridge up: socks5=10810 http=10811 (localhost only)".to_string()));
    assert!(b.stop());
    let binds = b.begin_start(10810, 10811, true, Some([192, 168, 1, 5]));
    assert_eq!(binds.len(), 4);
    assert_eq!(binds[2], (IpAddress::V4([192, 168, 1, 5]), 10811));
    assert!(binds.iter().all(|(ip, _)| *ip != IpAddress::V4([0, 0, 0, 0])));
    assert_eq!(b.socks_endpoint(), Some("192.168.1.5:10810".to_string()));
    assert_eq!(b.http_endpoint(), Some("192.168.1.5:10811".to_string()));
    assert_eq!(b.start_result(&vec![false, true, true, true]), Err("http bridge bind failed".to_string()));
    assert!(b.stop());
    assert!(!b.stop());
    assert!(b.http_endpoint().is_none());
    assert_eq!(LOCAL_SOCKS_PORT, 1819);
}
