//! The SOCKS5 client side of the engine's local proxy (RFC 1928): the
//! greeting, the CONNECT request by domain name, and the reply head.

use vstd::prelude::*;

verus! {

/// Version 5, one method offered: no authentication.
pub const GREETING: [u8; 3] = [0x05, 0x01, 0x00];

/// The server chose "no authentication".
pub fn greeting_accepted(reply: [u8; 2]) -> (r: bool)
    ensures
        r == (reply[0] == 0x05 && reply[1] == 0x00),
{
    reply[0] == 0x05 && reply[1] == 0x00
}

/// The CONNECT request for `host:port`, the host sent as a domain name.
pub open spec fn spec_connect_request(host: Seq<u8>, port: u16) -> Seq<u8> {
    seq![0x05u8, 0x01u8, 0x00u8, 0x03u8, host.len() as u8] + host + seq![
        (port / 256) as u8,
        (port % 256) as u8,
    ]
}

/// The CONNECT request, or nothing when the host name is longer than the
/// 255 bytes its length byte can count.
pub fn connect_request(host: &[u8], port: u16) -> (r: Option<Vec<u8>>)
    ensures
        r is None <==> host@.len() > 255,
        r matches Some(v) ==> v@ == spec_connect_request(host@, port),
{
    if host.len() > 255 {
        return None;
    }
    let mut v: Vec<u8> = Vec::new();
    v.push(0x05);
    v.push(0x01);
    v.push(0x00);
    v.push(0x03);
    v.push(host.len() as u8);
    let mut k: usize = 0;
    while k < host.len()
        invariant
            0 <= k <= host@.len() <= 255,
            v@ == seq![0x05u8, 0x01u8, 0x00u8, 0x03u8, host@.len() as u8] + host@.take(k as int),
        decreases host.len() - k,
    {
        v.push(host[k]);
        assert(host@.take(k + 1) =~= host@.take(k as int).push(host@[k as int]));
        k = k + 1;
    }
    assert(host@.take(host@.len() as int) =~= host@);
    v.push((port / 256) as u8);
    v.push((port % 256) as u8);
    assert(v@ =~= spec_connect_request(host@, port));
    Some(v)
}

/// What follows the first four bytes of a CONNECT reply.
#[derive(Debug, Clone, Copy, PartialEq, Eq, Structural)]
pub enum ReplyTail {
    /// This many more bytes (the bound address and port).
    Fixed(usize),
    /// A length byte, then that many bytes and two more.
    Named,
}

/// The reply head `VER REP RSV ATYP`: the connection stands only when REP is
/// 0 ("succeeded"), and the address type says how long the rest is.
pub fn reply_tail(head: [u8; 4]) -> (r: Option<ReplyTail>)
    ensures
        r == (if head[1] != 0x00 {
            None
        } else if head[3] == 0x01 {
            Some(ReplyTail::Fixed(6))
        } else if head[3] == 0x04 {
            Some(ReplyTail::Fixed(18))
        } else if head[3] == 0x03 {
            Some(ReplyTail::Named)
        } else {
            None
        }),
{
    if head[1] != 0x00 {
        None
    } else if head[3] == 0x01 {
        Some(ReplyTail::Fixed(4 + 2))
    } else if head[3] == 0x04 {
        Some(ReplyTail::Fixed(16 + 2))
    } else if head[3] == 0x03 {
        Some(ReplyTail::Named)
    } else {
        None
    }
}

} // verus!
