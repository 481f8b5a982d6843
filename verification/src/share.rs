//! The LAN/local proxy bridge: which addresses may use it, how an incoming
//! connection is recognised, and how a plain HTTP proxy request is routed.

use vstd::prelude::*;
use vstd::utf8::{decode_utf8, valid_utf8};
use crate::diagnostics::last_index_of;
use crate::text::{
    ascii_lowercase, chars_eq_ignore_ascii_case, chars_have_prefix, chars_of, crlf_pieces, decimal,
    decimal_string, eq_ignore_ascii_case, find_char, has_prefix, index_of, lowercase_chars,
    parse_u16, seqs_of, spec_parse_u16, split_crlf, split_words, string_of, subchars, words,
};

verus! {

/// An IP address, as the bridge sees its peers.
#[derive(Debug, Clone, Copy, PartialEq, Eq)]
pub enum IpAddress {
    V4([u8; 4]),
    V6([u16; 8]),
}

pub open spec fn v4_loopback(o: [u8; 4]) -> bool {
    o[0] == 127
}

/// RFC 1918 private ranges: 10/8, 172.16/12, 192.168/16.
pub open spec fn v4_private(o: [u8; 4]) -> bool {
    ||| o[0] == 10
    ||| o[0] == 172 && 16 <= o[1] <= 31
    ||| o[0] == 192 && o[1] == 168
}

/// 169.254/16.
pub open spec fn v4_link_local(o: [u8; 4]) -> bool {
    o[0] == 169 && o[1] == 254
}

pub open spec fn v4_unspecified(o: [u8; 4]) -> bool {
    o[0] == 0 && o[1] == 0 && o[2] == 0 && o[3] == 0
}

/// `::1`.
pub open spec fn v6_loopback(s: [u16; 8]) -> bool {
    s[0] == 0 && s[1] == 0 && s[2] == 0 && s[3] == 0 && s[4] == 0 && s[5] == 0 && s[6] == 0
        && s[7] == 1
}

/// Only peers that are really local may use the bridge: the device itself,
/// or a private/link-local IPv4 neighbour when sharing on the LAN.
pub open spec fn spec_peer_allowed(ip: IpAddress) -> bool {
    match ip {
        IpAddress::V4(o) => v4_loopback(o) || v4_private(o) || v4_link_local(o),
        IpAddress::V6(s) => v6_loopback(s),
    }
}

/// Addresses other LAN devices can reach: site-local IPv4 only.
pub open spec fn spec_is_lan_address(ip: IpAddress) -> bool {
    match ip {
        IpAddress::V4(o) => !v4_loopback(o) && !v4_unspecified(o) && (v4_private(o)
            || v4_link_local(o)),
        IpAddress::V6(_) => false,
    }
}

fn octets_loopback(o: [u8; 4]) -> (r: bool)
    ensures
        r == v4_loopback(o),
{
    o[0] == 127
}

fn octets_private(o: [u8; 4]) -> (r: bool)
    ensures
        r == v4_private(o),
{
    o[0] == 10 || (o[0] == 172 && 16 <= o[1] && o[1] <= 31) || (o[0] == 192 && o[1] == 168)
}

fn octets_link_local(o: [u8; 4]) -> (r: bool)
    ensures
        r == v4_link_local(o),
{
    o[0] == 169 && o[1] == 254
}

pub fn peer_allowed(ip: IpAddress) -> (r: bool)
    ensures
        r == spec_peer_allowed(ip),
{
    match ip {
        IpAddress::V4(o) => octets_loopback(o) || octets_private(o) || octets_link_local(o),
        IpAddress::V6(s) => s[0] == 0 && s[1] == 0 && s[2] == 0 && s[3] == 0 && s[4] == 0 && s[5]
            == 0 && s[6] == 0 && s[7] == 1,
    }
}

pub fn is_lan_address(ip: IpAddress) -> (r: bool)
    ensures
        r == spec_is_lan_address(ip),
{
    match ip {
        IpAddress::V4(o) => !octets_loopback(o) && !(o[0] == 0 && o[1] == 0 && o[2] == 0 && o[3]
            == 0) && (octets_private(o) || octets_link_local(o)),
        IpAddress::V6(_) => false,
    }
}

/// Dotted-decimal text of an IPv4 address.
pub open spec fn ipv4_text(o: [u8; 4]) -> Seq<char> {
    decimal(o[0] as nat) + "."@ + decimal(o[1] as nat) + "."@ + decimal(o[2] as nat) + "."@
        + decimal(o[3] as nat)
}

pub fn ipv4_string(o: [u8; 4]) -> (s: String)
    ensures
        s@ == ipv4_text(o),
{
    decimal_string(o[0] as u64).concat(".").concat(decimal_string(o[1] as u64).as_str()).concat(
        ".",
    ).concat(decimal_string(o[2] as u64).as_str()).concat(".").concat(
        decimal_string(o[3] as u64).as_str(),
    )
}

/// The first byte of a SOCKS5 greeting.
pub const SOCKS5_VERSION: u8 = 0x05;

/// The protocol an incoming bridge connection speaks.
#[derive(Debug, Clone, Copy, PartialEq, Eq, Structural)]
pub enum BridgeProtocol {
    Socks5,
    Http,
}

/// Both bridge ports accept both protocols: SOCKS5 always starts with 0x05.
pub fn sniff_protocol(first: u8) -> (p: BridgeProtocol)
    ensures
        p == (if first == SOCKS5_VERSION {
            BridgeProtocol::Socks5
        } else {
            BridgeProtocol::Http
        }),
{
    if first == SOCKS5_VERSION {
        BridgeProtocol::Socks5
    } else {
        BridgeProtocol::Http
    }
}

/// `host:port` split at the last colon when what follows it is a valid port;
/// otherwise the whole input with the default port.
pub open spec fn spec_split_host_port(s: Seq<char>, default_port: u16) -> (Seq<char>, u16) {
    match last_index_of(s, ':') {
        Some(i) => match spec_parse_u16(s.subrange(i + 1, s.len() as int)) {
            Some(p) => (s.take(i), p),
            None => (s, default_port),
        },
        None => (s, default_port),
    }
}

pub fn last_colon(v: &Vec<char>) -> (r: Option<usize>)
    ensures
        match r {
            Some(i) => last_index_of(v@, ':') == Some(i as int) && i < v.len(),
            None => last_index_of(v@, ':') is None,
        },
{
    let n = v.len();
    let mut j: usize = n;
    assert(v@.take(n as int) =~= v@);
    while j > 0 && v[j - 1] != ':'
        invariant
            0 <= j <= n,
            n == v@.len(),
            last_index_of(v@, ':') == last_index_of(v@.take(j as int), ':'),
        decreases j,
    {
        assert(v@.take(j as int).drop_last() =~= v@.take(j - 1));
        j = j - 1;
    }
    if j > 0 {
        assert(v@.take(j as int).last() == ':');
        Some(j - 1)
    } else {
        assert(v@.take(0) =~= Seq::<char>::empty());
        None
    }
}

fn split_host_port_chars(v: &Vec<char>, default_port: u16) -> (r: (Vec<char>, u16))
    ensures
        (r.0@, r.1) == spec_split_host_port(v@, default_port),
{
    match last_colon(v) {
        Some(i) => {
            let tail = subchars(v, i + 1, v.len());
            match parse_u16(&tail) {
                Some(p) => (subchars(v, 0, i), p),
                None => (subchars(v, 0, v.len()), default_port),
            }
        },
        None => (subchars(v, 0, v.len()), default_port),
    }
}

/// Splits `host:port`; without a valid port after the last colon the whole
/// input is the host and `default_port` the port.
pub fn split_host_port(input: &str, default_port: u16) -> (r: (String, u16))
    ensures
        (r.0@, r.1) == spec_split_host_port(input@, default_port),
{
    let v = chars_of(input);
    let (h, p) = split_host_port_chars(&v, default_port);
    (string_of(&h), p)
}

/// What the bridge does with an HTTP proxy request.
#[derive(Debug)]
pub enum HttpRoute {
    /// Nothing to answer: close the connection.
    Drop,
    /// Answer `400 Bad Request`.
    BadRequest,
    /// `CONNECT host:port`: open a tunnel to the target.
    Connect { host: String, port: u16 },
    /// An absolute-form request: send `head` (rewritten to origin form) to the target.
    Forward { host: String, port: u16, head: String },
}

pub enum HttpRouteView {
    Drop,
    BadRequest,
    Connect { host: Seq<char>, port: u16 },
    Forward { host: Seq<char>, port: u16, head: Seq<char> },
}

impl View for HttpRoute {
    type V = HttpRouteView;

    open spec fn view(&self) -> HttpRouteView {
        match self {
            HttpRoute::Drop => HttpRouteView::Drop,
            HttpRoute::BadRequest => HttpRouteView::BadRequest,
            HttpRoute::Connect { host, port } => HttpRouteView::Connect { host: host@, port: *port },
            HttpRoute::Forward { host, port, head } => HttpRouteView::Forward {
                host: host@,
                port: *port,
                head: head@,
            },
        }
    }
}

/// Rust's `str::lines().next()`: the text up to the first `\n`, without a
/// trailing `\r`; nothing for empty text.
pub open spec fn first_line(t: Seq<char>) -> Option<Seq<char>> {
    if t.len() == 0 {
        None
    } else {
        match index_of(t, '\n') {
            Some(i) => {
                let l = t.take(i);
                Some(
                    if l.len() > 0 && l.last() == '\r' {
                        l.drop_last()
                    } else {
                        l
                    },
                )
            },
            None => Some(t),
        }
    }
}

/// Headers a proxy must not forward.
pub open spec fn is_proxy_header(line: Seq<char>) -> bool {
    has_prefix(ascii_lowercase(line), "proxy-connection:"@) || has_prefix(
        ascii_lowercase(line),
        "proxy-authorization:"@,
    )
}

/// The header lines (pieces after the request line, up to the first empty
/// one) that are forwarded, from piece `k` on.
pub open spec fn kept_headers(pieces: Seq<Seq<char>>, k: int) -> Seq<Seq<char>>
    decreases pieces.len() - k,
{
    if k < 0 || k >= pieces.len() || pieces[k].len() == 0 {
        Seq::empty()
    } else if is_proxy_header(pieces[k]) {
        kept_headers(pieces, k + 1)
    } else {
        seq![pieces[k]] + kept_headers(pieces, k + 1)
    }
}

/// Lines each followed by `\r\n`.
pub open spec fn crlf_joined(ls: Seq<Seq<char>>) -> Seq<char>
    decreases ls.len(),
{
    if ls.len() == 0 {
        Seq::empty()
    } else {
        ls[0] + "\r\n"@ + crlf_joined(ls.drop_first())
    }
}

/// The path of an absolute-form target after `http://`, and its `host[:port]` part.
pub open spec fn split_path(rest: Seq<char>) -> (Seq<char>, Seq<char>) {
    match index_of(rest, '/') {
        Some(i) => (rest.take(i), rest.subrange(i, rest.len() as int)),
        None => (rest, "/"@),
    }
}

/// The routing decision for a request head (decoded text).
pub open spec fn spec_route(text: Seq<char>) -> HttpRouteView {
    match first_line(text) {
        None => HttpRouteView::Drop,
        Some(line) => {
            let p = words(line);
            if p.len() < 3 {
                HttpRouteView::BadRequest
            } else if eq_ignore_ascii_case(p[0], "CONNECT"@) {
                let hp = spec_split_host_port(p[1], 443);
                HttpRouteView::Connect { host: hp.0, port: hp.1 }
            } else if !has_prefix(p[1], "http://"@) {
                HttpRouteView::BadRequest
            } else {
                let rest = p[1].subrange(7, p[1].len() as int);
                let sp = split_path(rest);
                let hp = spec_split_host_port(sp.0, 80);
                HttpRouteView::Forward {
                    host: hp.0,
                    port: hp.1,
                    head: p[0] + " "@ + sp.1 + " "@ + p[2] + "\r\n"@ + crlf_joined(
                        kept_headers(crlf_pieces(text), 1),
                    ) + "\r\n"@,
                }
            }
        },
    }
}

fn first_line_chars(t: &Vec<char>) -> (r: Option<Vec<char>>)
    ensures
        match r {
            Some(l) => first_line(t@) == Some(l@),
            None => first_line(t@) is None,
        },
{
    if t.len() == 0 {
        return None;
    }
    match find_char(t, '\n') {
        Some(i) => {
            if i > 0 && t[i - 1] == '\r' {
                let l = subchars(t, 0, i - 1);
                assert(t@.take(i as int).drop_last() =~= l@);
                Some(l)
            } else {
                let l = subchars(t, 0, i);
                assert(t@.take(i as int) =~= l@);
                Some(l)
            }
        },
        None => {
            let l = subchars(t, 0, t.len());
            assert(t@ =~= l@);
            Some(l)
        },
    }
}

fn proxy_header(line: &Vec<char>) -> (r: bool)
    ensures
        r == is_proxy_header(line@),
{
    let lower = lowercase_chars(line);
    let a = chars_of("proxy-connection:");
    let b = chars_of("proxy-authorization:");
    chars_have_prefix(&lower, &a) || chars_have_prefix(&lower, &b)
}

proof fn lemma_crlf_joined_cons(x: Seq<char>, rest: Seq<Seq<char>>)
    ensures
        crlf_joined(seq![x] + rest) == x + "\r\n"@ + crlf_joined(rest),
{
    assert((seq![x] + rest).drop_first() =~= rest);
    assert((seq![x] + rest)[0] == x);
}

fn forwarded_headers(pieces: &Vec<Vec<char>>) -> (r: Vec<char>)
    ensures
        r@ == crlf_joined(kept_headers(seqs_of(pieces@), 1)),
{
    let ghost ps = seqs_of(pieces@);
    let mut out: Vec<char> = Vec::new();
    let mut k: usize = 1;
    assert(out@ + crlf_joined(kept_headers(ps, 1)) =~= crlf_joined(kept_headers(ps, 1)));
    while k < pieces.len() && pieces[k].len() > 0
        invariant
            1 <= k,
            ps == seqs_of(pieces@),
            crlf_joined(kept_headers(ps, 1)) == out@ + crlf_joined(kept_headers(ps, k as int)),
        decreases pieces.len() - k,
    {
        assert(ps[k as int] == pieces@[k as int]@);
        if !proxy_header(&pieces[k]) {
            proof {
                lemma_crlf_joined_cons(ps[k as int], kept_headers(ps, k + 1));
            }
            let ghost o0 = out@;
            let mut line = subchars(&pieces[k], 0, pieces[k].len());
            let mut c = chars_of("\r\n");
            out.append(&mut line);
            out.append(&mut c);
            assert(pieces@[k as int]@.subrange(0, pieces@[k as int]@.len() as int) =~= ps[k as int]);
            assert(o0 + (ps[k as int] + "\r\n"@ + crlf_joined(kept_headers(ps, k + 1))) =~= out@
                + crlf_joined(kept_headers(ps, k + 1)));
        }
        k = k + 1;
    }
    assert(kept_headers(ps, k as int) =~= Seq::<Seq<char>>::empty());
    assert(out@ + crlf_joined(kept_headers(ps, k as int)) =~= out@);
    out
}

/// Routes one HTTP proxy request, given the decoded text of its head.
pub fn route_http_text(text: &str) -> (r: HttpRoute)
    ensures
        r@ == spec_route(text@),
{
    let t = chars_of(text);
    let line = match first_line_chars(&t) {
        Some(l) => l,
        None => {
            return HttpRoute::Drop;
        },
    };
    let parts = split_words(&line);
    if parts.len() < 3 {
        return HttpRoute::BadRequest;
    }
    let ghost ps = seqs_of(parts@);
    assert(ps[0] == parts@[0]@ && ps[1] == parts@[1]@ && ps[2] == parts@[2]@);
    let connect = chars_of("CONNECT");
    if chars_eq_ignore_ascii_case(&parts[0], &connect) {
        let (h, p) = split_host_port_chars(&parts[1], 443);
        return HttpRoute::Connect { host: string_of(&h), port: p };
    }
    let scheme = chars_of("http://");
    if !chars_have_prefix(&parts[1], &scheme) {
        return HttpRoute::BadRequest;
    }
    let target = &parts[1];
    proof {
        reveal_strlit("http://");
    }
    let rest = subchars(target, 7, target.len());
    let (host_port, path) = match find_char(&rest, '/') {
        Some(i) => (subchars(&rest, 0, i), subchars(&rest, i, rest.len())),
        None => (subchars(&rest, 0, rest.len()), chars_of("/")),
    };
    assert(rest@.subrange(0, rest@.len() as int) =~= rest@);
    assert(rest@.take(0) =~= rest@.subrange(0, 0));
    let (h, p) = split_host_port_chars(&host_port, 80);
    let pieces = split_crlf(&t);
    let mut headers = forwarded_headers(&pieces);
    let mut head = subchars(&parts[0], 0, parts[0].len());
    let mut sp1 = chars_of(" ");
    let mut sp2 = chars_of(" ");
    let mut path_c = subchars(&path, 0, path.len());
    let mut p2 = subchars(&parts[2], 0, parts[2].len());
    let mut nl1 = chars_of("\r\n");
    let mut nl2 = chars_of("\r\n");
    head.append(&mut sp1);
    head.append(&mut path_c);
    head.append(&mut sp2);
    head.append(&mut p2);
    head.append(&mut nl1);
    head.append(&mut headers);
    head.append(&mut nl2);
    assert(parts@[0]@.subrange(0, parts@[0]@.len() as int) =~= ps[0]);
    assert(parts@[2]@.subrange(0, parts@[2]@.len() as int) =~= ps[2]);
    assert(path@.subrange(0, path@.len() as int) =~= path@);
    HttpRoute::Forward { host: string_of(&h), port: p, head: string_of(&head) }
}

/// What `String::from_utf8_lossy` makes of a byte string.
pub uninterp spec fn lossy_decode(bytes: Seq<u8>) -> Seq<char>;

/// `String::from_utf8_lossy`: the bytes decoded as UTF-8, each invalid
/// sequence replaced by U+FFFD; valid UTF-8 decodes exactly.
#[verifier::external_body]
fn utf8_lossy(bytes: &[u8]) -> (s: String)
    ensures
        s@ == lossy_decode(bytes@),
        valid_utf8(bytes@) ==> s@ == decode_utf8(bytes@),
{
    String::from_utf8_lossy(bytes).into_owned()
}

/// Routes one HTTP proxy request from the raw bytes of its head.
pub fn route_http_head(head: &[u8]) -> (r: HttpRoute)
    ensures
        r@ == spec_route(lossy_decode(head@)),
        valid_utf8(head@) ==> r@ == spec_route(decode_utf8(head@)),
{
    let text = utf8_lossy(head);
    route_http_text(text.as_str())
}

/// Index of the first occurrence of `needle` in `hay`.
pub open spec fn first_occurrence(hay: Seq<u8>, needle: Seq<u8>) -> Option<int> {
    if exists|i: int| 0 <= i && i + needle.len() <= hay.len() && #[trigger] hay.subrange(
        i,
        i + needle.len(),
    ) == needle {
        Some(
            choose|i: int|
                0 <= i && i + needle.len() <= hay.len() && #[trigger] hay.subrange(
                    i,
                    i + needle.len(),
                ) == needle && forall|j: int|
                    0 <= j < i ==> #[trigger] hay.subrange(j, j + needle.len()) != needle,
        )
    } else {
        None
    }
}

fn matches_at(hay: &[u8], needle: &[u8], i: usize) -> (r: bool)
    requires
        i + needle@.len() <= hay@.len(),
    ensures
        r == (hay@.subrange(i as int, i + needle@.len()) == needle@),
{
    let mut k: usize = 0;
    while k < needle.len()
        invariant
            0 <= k <= needle@.len(),
            i + needle@.len() <= hay@.len(),
            hay@.len() == hay.len(),
            forall|m: int| 0 <= m < k ==> hay@[i + m] == needle@[m],
        decreases needle.len() - k,
    {
        if hay[i + k] != needle[k] {
            assert(hay@.subrange(i as int, i + needle@.len())[k as int] != needle@[k as int]);
            return false;
        }
        k = k + 1;
    }
    assert(hay@.subrange(i as int, i + needle@.len()) =~= needle@);
    true
}

/// Position of the first occurrence of a non-empty `needle` in `hay`.
pub fn find_subsequence(hay: &[u8], needle: &[u8]) -> (r: Option<usize>)
    requires
        needle@.len() > 0,
    ensures
        match r {
            Some(i) => {
                &&& i + needle@.len() <= hay@.len()
                &&& hay@.subrange(i as int, i + needle@.len()) == needle@
                &&& forall|j: int|
                    0 <= j < i ==> #[trigger] hay@.subrange(j, j + needle@.len()) != needle@
            },
            None => forall|j: int|
                0 <= j && j + needle@.len() <= hay@.len() ==> #[trigger] hay@.subrange(
                    j,
                    j + needle@.len(),
                ) != needle@,
        },
        r matches Some(i) ==> first_occurrence(hay@, needle@) == Some(i as int),
        r is None ==> first_occurrence(hay@, needle@) is None,
{
    if hay.len() < needle.len() {
        return None;
    }
    let last = hay.len() - needle.len();
    let mut i: usize = 0;
    while i <= last
        invariant
            last + needle@.len() == hay@.len(),
            needle@.len() > 0,
            hay@.len() == hay.len(),
            needle@.len() == needle.len(),
            0 <= i <= last + 1,
            forall|j: int| 0 <= j < i ==> #[trigger] hay@.subrange(j, j + needle@.len()) != needle@,
        decreases last + 1 - i,
    {
        if matches_at(hay, needle, i) {
            proof {
                let w = choose|w: int|
                    0 <= w && w + needle@.len() <= hay@.len() && #[trigger] hay@.subrange(
                        w,
                        w + needle@.len(),
                    ) == needle@ && forall|j: int|
                        0 <= j < w ==> #[trigger] hay@.subrange(j, j + needle@.len()) != needle@;
                if w < i {
                } else if w > i {
                }
                assert(w == i);
            }
            return Some(i);
        }
        i = i + 1;
    }
    None
}

/// A request head may not grow beyond this many bytes.
pub const MAX_HEAD_BYTES: usize = 32_768;

/// How far the bytes read so far go towards a complete HTTP request head.
#[derive(Debug)]
pub enum HeadScan {
    /// The head (through the blank line) and the body bytes already read.
    Complete { head: Vec<u8>, rest: Vec<u8> },
    /// No blank line within the size limit: give up.
    TooLarge,
    /// Read more.
    NeedMore,
}

/// Splits the bytes read so far at the end of the request head.
pub fn scan_head(buf: &[u8]) -> (r: HeadScan)
    ensures
        match r {
            HeadScan::Complete { head, rest } => first_occurrence(buf@, seq![13u8, 10u8, 13u8, 10u8])
                matches Some(p) && head@ == buf@.take(p + 4) && rest@ == buf@.subrange(
                p + 4,
                buf@.len() as int,
            ),
            HeadScan::TooLarge => first_occurrence(buf@, seq![13u8, 10u8, 13u8, 10u8]) is None
                && buf@.len() > MAX_HEAD_BYTES,
            HeadScan::NeedMore => first_occurrence(buf@, seq![13u8, 10u8, 13u8, 10u8]) is None
                && buf@.len() <= MAX_HEAD_BYTES,
        },
{
    let marker: [u8; 4] = [13, 10, 13, 10];
    assert(marker@ =~= seq![13u8, 10u8, 13u8, 10u8]);
    match find_subsequence(buf, marker.as_slice()) {
        Some(pos) => {
            let mut head: Vec<u8> = Vec::new();
            let mut rest: Vec<u8> = Vec::new();
            let mut k: usize = 0;
            while k < buf.len()
                invariant
                    0 <= k <= buf@.len(),
                    pos + 4 <= buf@.len(),
                    k <= pos + 4 ==> head@ =~= buf@.take(k as int) && rest@.len() == 0,
                    k > pos + 4 ==> head@ =~= buf@.take(pos + 4) && rest@ =~= buf@.subrange(
                        pos + 4,
                        k as int,
                    ),
                decreases buf.len() - k,
            {
                if k < pos + 4 {
                    head.push(buf[k]);
                } else {
                    rest.push(buf[k]);
                }
                k = k + 1;
            }
            HeadScan::Complete { head, rest }
        },
        None => {
            if buf.len() > MAX_HEAD_BYTES {
                HeadScan::TooLarge
            } else {
                HeadScan::NeedMore
            }
        },
    }
}

/// The loopback address the bridge always listens on.
pub open spec fn localhost() -> [u8; 4] {
    [127u8, 0u8, 0u8, 1u8]
}

/// The bridge's listening configuration: whether it runs, its two ports, and
/// the LAN address it is shared on.
pub struct ShareBridge {
    running: bool,
    lan_ip: Option<[u8; 4]>,
    lan_enabled: bool,
    socks_port: u16,
    http_port: u16,
}

pub struct BridgeView {
    pub running: bool,
    pub lan_ip: Option<[u8; 4]>,
    pub lan_enabled: bool,
    pub socks_port: u16,
    pub http_port: u16,
}

impl View for ShareBridge {
    type V = BridgeView;

    closed spec fn view(&self) -> BridgeView {
        BridgeView {
            running: self.running,
            lan_ip: self.lan_ip,
            lan_enabled: self.lan_enabled,
            socks_port: self.socks_port,
            http_port: self.http_port,
        }
    }
}

/// Where the bridge listens: the HTTP port, then the SOCKS port, on localhost
/// and then on the LAN address (when there is one other than localhost).
pub open spec fn spec_binds(b: BridgeView) -> Seq<(IpAddress, u16)> {
    let local = seq![
        (IpAddress::V4(localhost()), b.http_port),
        (IpAddress::V4(localhost()), b.socks_port),
    ];
    match b.lan_ip {
        Some(ip) => if ip != localhost() {
            local + seq![(IpAddress::V4(ip), b.http_port), (IpAddress::V4(ip), b.socks_port)]
        } else {
            local
        },
        None => local,
    }
}

/// A shared endpoint `a.b.c.d:port`, only while LAN sharing is on.
pub open spec fn spec_endpoint(b: BridgeView, port: u16) -> Option<Seq<char>> {
    if !b.lan_enabled {
        None
    } else {
        match b.lan_ip {
            Some(ip) => Some(ipv4_text(ip) + ":"@ + decimal(port as nat)),
            None => None,
        }
    }
}

pub open spec fn spec_up_message(b: BridgeView) -> Seq<char> {
    "Bridge up: socks5="@ + decimal(b.socks_port as nat) + " http="@ + decimal(b.http_port as nat)
        + match b.lan_ip {
        Some(ip) => " (shared on "@ + ipv4_text(ip) + ")"@,
        None => " (localhost only)"@,
    }
}

fn same_octets(a: [u8; 4], b: [u8; 4]) -> (r: bool)
    ensures
        r == (a == b),
{
    let r = a[0] == b[0] && a[1] == b[1] && a[2] == b[2] && a[3] == b[3];
    proof {
        if r {
            assert(a =~= b);
        }
    }
    r
}

impl ShareBridge {
    pub fn new() -> (b: Self)
        ensures
            !b@.running,
            b@.lan_ip is None,
            !b@.lan_enabled,
            b@.socks_port == 0,
            b@.http_port == 0,
    {
        ShareBridge { running: false, lan_ip: None, lan_enabled: false, socks_port: 0, http_port: 0 }
    }

    pub fn is_running(&self) -> (r: bool)
        ensures
            r == self@.running,
    {
        self.running
    }

    /// Stops the bridge; returns whether it was running.
    pub fn stop(&mut self) -> (was_running: bool)
        ensures
            was_running == old(self)@.running,
            final(self)@ == (BridgeView {
                running: false,
                lan_ip: None,
                lan_enabled: false,
                ..old(self)@
            }),
    {
        let was = self.running;
        self.running = false;
        self.lan_ip = None;
        self.lan_enabled = false;
        was
    }

    /// Starts a new generation on the given ports; with `lan`, the detected
    /// LAN address is shared too. Returns where to listen.
    pub fn begin_start(&mut self, socks_port: u16, http_port: u16, lan: bool, detected: Option<
        [u8; 4],
    >) -> (binds: Vec<(IpAddress, u16)>)
        ensures
            final(self)@ == (BridgeView {
                running: true,
                lan_ip: if lan {
                    detected
                } else {
                    None
                },
                lan_enabled: lan,
                socks_port,
                http_port,
            }),
            binds@ == spec_binds(final(self)@),
    {
        self.running = true;
        self.socks_port = socks_port;
        self.http_port = http_port;
        self.lan_enabled = lan;
        self.lan_ip = if lan {
            detected
        } else {
            None
        };
        let local: [u8; 4] = [127, 0, 0, 1];
        assert(local@ =~= localhost()@);
        assert(local == localhost());
        let mut binds: Vec<(IpAddress, u16)> = Vec::new();
        binds.push((IpAddress::V4(local), http_port));
        binds.push((IpAddress::V4(local), socks_port));
        if let Some(ip) = self.lan_ip {
            if !same_octets(ip, local) {
                binds.push((IpAddress::V4(ip), http_port));
                binds.push((IpAddress::V4(ip), socks_port));
            }
        }
        assert(binds@ =~= spec_binds(self@));
        binds
    }

    /// The start succeeded exactly when the HTTP listener on localhost (the
    /// first bind) is up: the data path of the system proxy depends on it.
    /// On success, the line to log.
    pub fn start_result(&self, bound: &Vec<bool>) -> (r: Result<String, String>)
        requires
            bound.len() >= 1,
        ensures
            r is Ok <==> bound@[0],
            r matches Ok(m) ==> m@ == spec_up_message(self@),
            r matches Err(e) ==> e@ == "http bridge bind failed"@,
    {
        if bound[0] {
            let mut m = String::from_str("Bridge up: socks5=").concat(
                decimal_string(self.socks_port as u64).as_str(),
            ).concat(" http=").concat(decimal_string(self.http_port as u64).as_str());
            match self.lan_ip {
                Some(ip) => {
                    m = m.concat(" (shared on ").concat(ipv4_string(ip).as_str()).concat(")");
                },
                None => {
                    m = m.concat(" (localhost only)");
                },
            }
            Ok(m)
        } else {
            Err(String::from_str("http bridge bind failed"))
        }
    }

    fn endpoint(&self, port: u16) -> (r: Option<String>)
        ensures
            match r {
                Some(s) => spec_endpoint(self@, port) == Some(s@),
                None => spec_endpoint(self@, port) is None,
            },
    {
        if !self.lan_enabled {
            return None;
        }
        match self.lan_ip {
            Some(ip) => Some(
                ipv4_string(ip).concat(":").concat(decimal_string(port as u64).as_str()),
            ),
            None => None,
        }
    }

    /// The shared SOCKS5 endpoint, only while LAN sharing is on.
    pub fn socks_endpoint(&self) -> (r: Option<String>)
        ensures
            match r {
                Some(s) => spec_endpoint(self@, self@.socks_port) == Some(s@),
                None => spec_endpoint(self@, self@.socks_port) is None,
            },
    {
        self.endpoint(self.socks_port)
    }

    /// The shared HTTP endpoint, only while LAN sharing is on.
    pub fn http_endpoint(&self) -> (r: Option<String>)
        ensures
            match r {
                Some(s) => spec_endpoint(self@, self@.http_port) == Some(s@),
                None => spec_endpoint(self@, self@.http_port) is None,
            },
    {
        self.endpoint(self.http_port)
    }
}

/// A bridge that is not sharing on the LAN never advertises an endpoint.
pub proof fn lemma_no_endpoint_without_lan(b: BridgeView, port: u16)
    requires
        !b.lan_enabled,
    ensures
        spec_endpoint(b, port) is None,
{
}

/// The bridge always listens on localhost first (HTTP, then SOCKS5), and on
/// at most one further address, which is the LAN address it was given.
pub proof fn lemma_binds_localhost_first(b: BridgeView)
    ensures
        spec_binds(b).len() == 2 || spec_binds(b).len() == 4,
        spec_binds(b)[0] == (IpAddress::V4(localhost()), b.http_port),
        spec_binds(b)[1] == (IpAddress::V4(localhost()), b.socks_port),
        spec_binds(b).len() == 4 ==> b.lan_ip == Some(match spec_binds(b)[2].0 {
            IpAddress::V4(o) => o,
            IpAddress::V6(_) => localhost(),
        }),
{
}

/// The bridge never listens on every interface: each address it binds is
/// localhost or the detected LAN address (never the unspecified address).
pub proof fn lemma_never_binds_every_interface(b: BridgeView)
    requires
        b.lan_ip matches Some(ip) ==> spec_is_lan_address(IpAddress::V4(ip)),
    ensures
        forall|i: int|
            0 <= i < spec_binds(b).len() ==> (#[trigger] spec_binds(b)[i].0 matches IpAddress::V4(o)
                && !v4_unspecified(o) && (o == localhost() || b.lan_ip == Some(o))),
{
}

/// Every address the bridge would share on the LAN may also use it.
pub proof fn lemma_lan_addresses_are_allowed_peers(ip: IpAddress)
    requires
        spec_is_lan_address(ip),
    ensures
        spec_peer_allowed(ip),
{
}

/// Every private (10/8, 172.16/12, 192.168/16) and link-local (169.254/16)
/// IPv4 address is a LAN address the bridge can be shared on; loopback, the
/// unspecified address, every other IPv4 address and every IPv6 address are not.
pub proof fn lemma_lan_address_ranges(a: u8, b: u8, c: u8, d: u8, s: [u16; 8])
    ensures
        spec_is_lan_address(IpAddress::V4([10u8, b, c, d])),
        16 <= b <= 31 ==> spec_is_lan_address(IpAddress::V4([172u8, b, c, d])),
        spec_is_lan_address(IpAddress::V4([192u8, 168u8, c, d])),
        spec_is_lan_address(IpAddress::V4([169u8, 254u8, c, d])),
        !spec_is_lan_address(IpAddress::V4([127u8, b, c, d])),
        !spec_is_lan_address(IpAddress::V4([0u8, 0u8, 0u8, 0u8])),
        a != 10 && a != 172 && a != 192 && a != 169 ==> !spec_is_lan_address(
            IpAddress::V4([a, b, c, d]),
        ),
        !(16 <= b <= 31) ==> !spec_is_lan_address(IpAddress::V4([172u8, b, c, d])),
        !spec_is_lan_address(IpAddress::V6(s)),
{
    assert([10u8, b, c, d][0] == 10u8);
    assert([172u8, b, c, d][0] == 172u8 && [172u8, b, c, d][1] == b);
    assert([192u8, 168u8, c, d][0] == 192u8 && [192u8, 168u8, c, d][1] == 168u8);
    assert([169u8, 254u8, c, d][0] == 169u8 && [169u8, 254u8, c, d][1] == 254u8);
    assert([127u8, b, c, d][0] == 127u8);
    assert([0u8, 0u8, 0u8, 0u8][0] == 0u8 && [0u8, 0u8, 0u8, 0u8][1] == 0u8);
    assert([a, b, c, d][0] == a);
}

proof fn lemma_index_of_facts(s: Seq<char>, c: char)
    ensures
        index_of(s, c) matches Some(i) ==> 0 <= i < s.len() && s[i] == c && forall|k: int|
            0 <= k < i ==> s[k] != c,
        index_of(s, c) is None ==> forall|k: int| 0 <= k < s.len() ==> s[k] != c,
    decreases s.len(),
{
    if s.len() > 0 {
        lemma_index_of_facts(s.drop_first(), c);
        assert forall|k: int| 0 < k < s.len() implies s[k] == s.drop_first()[k - 1] by {}
    }
}

/// An absolute-form request of any method (anything but `CONNECT`) is
/// forwarded, never refused: the rewritten head starts with the request's
/// own method, a space and the path of the target (`/` when it has none),
/// then the request's protocol word; the path and the `host[:port]` part
/// make up the target after `http://`.
pub proof fn lemma_absolute_form_is_forwarded(text: Seq<char>)
    requires
        first_line(text) matches Some(line) && words(line).len() >= 3 && !eq_ignore_ascii_case(
            words(line)[0],
            "CONNECT"@,
        ) && has_prefix(words(line)[1], "http://"@),
    ensures
        ({
            let p = words(first_line(text)->0);
            &&& spec_route(text) is Forward
            &&& exists|hp: Seq<char>, path: Seq<char>|
                {
                    &&& has_prefix(spec_route(text)->Forward_head, p[0] + " "@ + path + " "@ + p[2])
                    &&& forall|k: int| 0 <= k < hp.len() ==> #[trigger] hp[k] != '/'
                    &&& ((path.len() > 0 && path[0] == '/' && p[1] == "http://"@ + hp + path) || (
                    path == "/"@ && p[1] == "http://"@ + hp))
                }
        }),
{
    reveal_strlit("http://");
    let p = words(first_line(text)->0);
    let rest = p[1].subrange(7, p[1].len() as int);
    let sp = split_path(rest);
    lemma_index_of_facts(rest, '/');
    let head = spec_route(text)->Forward_head;
    let line = p[0] + " "@ + sp.1 + " "@ + p[2];
    assert(head.take(line.len() as int) =~= line);
    assert(p[1].take(7) =~= "http://"@);
    match index_of(rest, '/') {
        Some(i) => {
            assert(p[1] =~= "http://"@ + sp.0 + sp.1);
            assert(sp.1[0] == '/');
        },
        None => {
            assert(p[1] =~= "http://"@ + sp.0);
        },
    }
    assert(forall|k: int| 0 <= k < sp.0.len() ==> #[trigger] sp.0[k] != '/');
}

} // verus!
