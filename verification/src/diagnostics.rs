//! The connectivity self-test that gates "Connected", and the environment report.

use vstd::prelude::*;
use crate::engine::LOCAL_SOCKS_PORT;
use crate::log::{
    CheckView, DiagnosticsLog, MAX_LINES, last_lines, log_line, pending_check, ring_push,
    spec_update_check,
};
use crate::profile::ConnectionProfile;
use crate::text::{
    chars_have_prefix, chars_of, decimal, decimal_string, has_prefix, lines, seqs_of, split_lines,
    string_of, subchars, trim, trim_chars,
};

verus! {

/// Check identifiers.
pub const C_PORT: &'static str = "socks_port";

pub const C_HANDSHAKE: &'static str = "socks_handshake";

pub const C_TCP: &'static str = "tcp_via_proxy";

pub const C_DNS: &'static str = "dns_http_via_tunnel";

/// Delay between two rounds of the outbound probes, in milliseconds.
pub const RETRY_DELAY_MS: u64 = 750;

/// Log tag of the self-test.
pub const TAG: &'static str = "diag";

/// A public IP address and, when known, its country code.
#[derive(Debug)]
pub struct IpInfo {
    pub ip: String,
    pub country_code: Option<String>,
}

pub struct IpInfoView {
    pub ip: Seq<char>,
    pub country_code: Option<Seq<char>>,
}

pub open spec fn opt_string_view(o: Option<String>) -> Option<Seq<char>> {
    match o {
        Some(s) => Some(s@),
        None => None,
    }
}

impl View for IpInfo {
    type V = IpInfoView;

    open spec fn view(&self) -> IpInfoView {
        IpInfoView { ip: self.ip@, country_code: opt_string_view(self.country_code) }
    }
}

pub fn clone_opt_string(o: &Option<String>) -> (r: Option<String>)
    ensures
        opt_string_view(r) == opt_string_view(*o),
{
    match o {
        Some(s) => Some(s.clone()),
        None => None,
    }
}

impl Clone for IpInfo {
    fn clone(&self) -> (r: Self)
        ensures
            r@ == self@,
    {
        IpInfo { ip: self.ip.clone(), country_code: clone_opt_string(&self.country_code) }
    }
}

/// The `ip=` and `loc=` fields of a trace answer (one `key=value` per line),
/// the later line winning; a `loc=` with nothing but whitespace is ignored.
pub open spec fn trace_fields(ls: Seq<Seq<char>>) -> (Option<Seq<char>>, Option<Seq<char>>)
    decreases ls.len(),
{
    if ls.len() == 0 {
        (None, None)
    } else {
        let prev = trace_fields(ls.drop_last());
        let l = ls.last();
        if has_prefix(l, "ip="@) {
            (Some(trim(l.skip(3))), prev.1)
        } else if has_prefix(l, "loc="@) && trim(l.skip(4)).len() > 0 {
            (prev.0, Some(trim(l.skip(4))))
        } else {
            prev
        }
    }
}

/// The address and country code in a trace answer; nothing without an `ip=` line.
pub open spec fn spec_parse_trace(body: Seq<char>) -> Option<IpInfoView> {
    let f = trace_fields(lines(body));
    match f.0 {
        Some(ip) => Some(IpInfoView { ip, country_code: f.1 }),
        None => None,
    }
}

pub open spec fn opt_chars_view(o: Option<Vec<char>>) -> Option<Seq<char>> {
    match o {
        Some(v) => Some(v@),
        None => None,
    }
}

/// Reads the exit address and country code out of a `/cdn-cgi/trace` answer body.
pub fn parse_trace(body: &str) -> (r: Option<IpInfo>)
    ensures
        match r {
            Some(i) => spec_parse_trace(body@) == Some(i@),
            None => spec_parse_trace(body@) is None,
        },
{
    let v = chars_of(body);
    let ls = split_lines(&v);
    let ip_key = chars_of("ip=");
    let loc_key = chars_of("loc=");
    proof {
        reveal_strlit("ip=");
        reveal_strlit("loc=");
    }
    let ghost all = seqs_of(ls@);
    let mut ip: Option<Vec<char>> = None;
    let mut cc: Option<Vec<char>> = None;
    let mut k: usize = 0;
    assert(all.take(0) =~= Seq::<Seq<char>>::empty());
    while k < ls.len()
        invariant
            0 <= k <= ls.len(),
            all == seqs_of(ls@),
            all == lines(body@),
            ip_key@ == "ip="@,
            loc_key@ == "loc="@,
            "ip="@.len() == 3,
            "loc="@.len() == 4,
            (opt_chars_view(ip), opt_chars_view(cc)) == trace_fields(all.take(k as int)),
        decreases ls.len() - k,
    {
        let l = &ls[k];
        assert(all.take(k + 1).drop_last() =~= all.take(k as int));
        assert(all.take(k + 1).last() == l@);
        if chars_have_prefix(l, &ip_key) {
            let rest = subchars(l, 3, l.len());
            assert(rest@ =~= l@.skip(3));
            ip = Some(trim_chars(&rest));
        } else if chars_have_prefix(l, &loc_key) {
            let rest = subchars(l, 4, l.len());
            assert(rest@ =~= l@.skip(4));
            let t = trim_chars(&rest);
            if t.len() > 0 {
                cc = Some(t);
            }
        }
        k = k + 1;
    }
    assert(all.take(ls.len() as int) =~= all);
    match ip {
        Some(x) => Some(
            IpInfo {
                ip: string_of(&x),
                country_code: match cc {
                    Some(c) => Some(string_of(&c)),
                    None => None,
                },
            },
        ),
        None => None,
    }
}

/// Result of a self-test run.
#[derive(Debug)]
pub struct SelfTestOutcome {
    pub ok: bool,
    pub exit: Option<IpInfo>,
    pub latency_ms: Option<u64>,
}

pub open spec fn label_port() -> Seq<char> {
    "SOCKS5 port 127.0.0.1:"@ + decimal(LOCAL_SOCKS_PORT as nat)
}

/// The four checks, all pending.
pub open spec fn fresh_checks() -> Seq<CheckView> {
    seq![
        pending_check(C_PORT@, label_port()),
        pending_check(C_HANDSHAKE@, "SOCKS5 handshake"@),
        pending_check(C_TCP@, "TCP via proxy (1.1.1.1:80)"@),
        pending_check(C_DNS@, "DNS + HTTP via tunnel"@),
    ]
}

/// Resets the live checks to the four pending self-test checks.
pub fn reset_checks(log: &mut DiagnosticsLog)
    ensures
        final(log).check_rows() == fresh_checks(),
        final(log).lines() == old(log).lines(),
        final(log).unflushed() == old(log).unflushed(),
{
    let port_label = String::from_str("SOCKS5 port 127.0.0.1:").concat(
        decimal_string(LOCAL_SOCKS_PORT as u64).as_str(),
    );
    let mut items: Vec<(&str, String)> = Vec::new();
    items.push((C_PORT, port_label));
    items.push((C_HANDSHAKE, String::from_str("SOCKS5 handshake")));
    items.push((C_TCP, String::from_str("TCP via proxy (1.1.1.1:80)")));
    items.push((C_DNS, String::from_str("DNS + HTTP via tunnel")));
    let ghost iv = items@;
    log.set_checks(items);
    assert(iv.map_values(|it: (&str, String)| pending_check(it.0@, it.1@)) =~= fresh_checks());
}

/// Index of the last occurrence of `c`, if any.
pub open spec fn last_index_of(s: Seq<char>, c: char) -> Option<int>
    decreases s.len(),
{
    if s.len() == 0 {
        None
    } else if s.last() == c {
        Some(s.len() - 1)
    } else {
        last_index_of(s.drop_last(), c)
    }
}

/// Rust's `str::split(c)`: the pieces between the occurrences of `c`.
pub open spec fn split_on(s: Seq<char>, c: char) -> Seq<Seq<char>>
    decreases s.len(),
{
    if s.len() == 0 {
        seq![Seq::empty()]
    } else {
        let p = split_on(s.drop_last(), c);
        if s.last() == c {
            p.push(Seq::empty())
        } else {
            p.update(p.len() - 1, p.last().push(s.last()))
        }
    }
}

pub proof fn lemma_split_on_nonempty(s: Seq<char>, c: char)
    ensures
        split_on(s, c).len() >= 1,
    decreases s.len(),
{
    if s.len() > 0 {
        lemma_split_on_nonempty(s.drop_last(), c);
    }
}

/// The first `::` at or after position `i`.
pub open spec fn double_colon_from(s: Seq<char>, i: int) -> Option<int>
    decreases s.len() - i,
{
    if i < 0 || i + 1 >= s.len() {
        None
    } else if s[i] == ':' && s[i + 1] == ':' {
        Some(i)
    } else {
        double_colon_from(s, i + 1)
    }
}

/// The `:`-separated groups of a part of an IPv6 text (none for an empty part).
pub open spec fn groups_of(s: Seq<char>) -> Seq<Seq<char>> {
    if s.len() == 0 {
        seq![]
    } else {
        split_on(s, ':')
    }
}

/// The groups of an IPv6 text with `::` expanded into the zero groups it
/// stands for (eight groups in all for a well-formed address).
pub open spec fn expand_groups(s: Seq<char>) -> Seq<Seq<char>> {
    match double_colon_from(s, 0) {
        Some(i) => {
            let h = groups_of(s.take(i));
            let t = groups_of(s.skip(i + 2));
            let z: nat = if h.len() + t.len() < 8 {
                (8 - h.len() - t.len()) as nat
            } else {
                0
            };
            h + Seq::new(z, |k: int| "0"@) + t
        },
        None => split_on(s, ':'),
    }
}

/// Group `k` of the expanded address, `0` past its end.
pub open spec fn group_or_zero(e: Seq<Seq<char>>, k: int) -> Seq<char> {
    if k < e.len() {
        e[k]
    } else {
        "0"@
    }
}

/// An IPv6 address cut to its /48: the first three groups of its expanded form.
pub open spec fn spec_mask_v6(s: Seq<char>) -> Seq<char> {
    let e = expand_groups(s);
    group_or_zero(e, 0) + ":"@ + group_or_zero(e, 1) + ":"@ + group_or_zero(e, 2) + "::xxxx"@
}

/// Masks an address for the persistent log: the last IPv4 octet becomes
/// `xxx`; an IPv6 address keeps only its /48 (the first three groups of its
/// expanded form); anything else is kept.
pub open spec fn spec_mask_ip(s: Seq<char>) -> Seq<char> {
    match last_index_of(s, '.') {
        Some(i) => s.take(i) + ".xxx"@,
        None => if s.contains(':') {
            spec_mask_v6(s)
        } else {
            s
        },
    }
}

fn split_colon(v: &Vec<char>) -> (r: Vec<Vec<char>>)
    ensures
        seqs_of(r@) == split_on(v@, ':'),
{
    let mut acc: Vec<Vec<char>> = Vec::new();
    let mut cur: Vec<char> = Vec::new();
    let mut i: usize = 0;
    assert(v@.take(0) =~= Seq::<char>::empty());
    assert(seqs_of(acc@).push(cur@) =~= split_on(v@.take(0), ':'));
    while i < v.len()
        invariant
            0 <= i <= v.len(),
            split_on(v@.take(i as int), ':') == seqs_of(acc@).push(cur@),
        decreases v.len() - i,
    {
        let ghost a0 = seqs_of(acc@);
        let ghost c0 = cur@;
        assert(v@.take(i + 1).drop_last() =~= v@.take(i as int));
        assert(v@.take(i + 1).last() == v@[i as int]);
        if v[i] == ':' {
            acc.push(cur);
            cur = Vec::new();
            assert(seqs_of(acc@) =~= a0.push(c0));
            assert(seqs_of(acc@).push(cur@) =~= a0.push(c0).push(Seq::<char>::empty()));
        } else {
            cur.push(v[i]);
            assert(a0.push(c0).update(a0.len() as int, c0.push(v@[i as int])) =~= a0.push(cur@));
        }
        i = i + 1;
    }
    assert(v@.take(v.len() as int) =~= v@);
    let ghost a0 = seqs_of(acc@);
    let ghost c0 = cur@;
    acc.push(cur);
    assert(seqs_of(acc@) =~= a0.push(c0));
    acc
}

fn groups_of_chars(v: &Vec<char>) -> (r: Vec<Vec<char>>)
    ensures
        seqs_of(r@) == groups_of(v@),
{
    if v.len() == 0 {
        let r: Vec<Vec<char>> = Vec::new();
        assert(seqs_of(r@) =~= Seq::<Seq<char>>::empty());
        r
    } else {
        split_colon(v)
    }
}

fn find_double_colon(v: &Vec<char>) -> (r: Option<usize>)
    ensures
        match r {
            Some(i) => double_colon_from(v@, 0) == Some(i as int) && i + 1 < v@.len(),
            None => double_colon_from(v@, 0) is None,
        },
{
    let mut i: usize = 0;
    while i < v.len() && i + 1 < v.len()
        invariant
            0 <= i <= v.len(),
            double_colon_from(v@, 0) == double_colon_from(v@, i as int),
        decreases v.len() - i,
    {
        if v[i] == ':' && v[i + 1] == ':' {
            return Some(i);
        }
        i = i + 1;
    }
    None
}

/// The expanded groups of an IPv6 text.
fn expand_chars(v: &Vec<char>) -> (e: Vec<Vec<char>>)
    ensures
        seqs_of(e@) == expand_groups(v@),
{
    match find_double_colon(v) {
        Some(i) => {
            let h = groups_of_chars(&subchars(v, 0, i));
            let t = groups_of_chars(&subchars(v, i + 2, v.len()));
            assert(v@.subrange(0, i as int) =~= v@.take(i as int));
            assert(v@.subrange(i + 2, v.len() as int) =~= v@.skip(i + 2));
            let ghost hs = seqs_of(h@);
            let ghost ts = seqs_of(t@);
            let z: usize = if h.len() < 8 && t.len() < 8 - h.len() {
                8 - h.len() - t.len()
            } else {
                0
            };
            let mut e = h;
            let mut k: usize = 0;
            while k < z
                invariant
                    0 <= k <= z <= 8,
                    seqs_of(e@) =~= hs + Seq::new(k as nat, |j: int| "0"@),
                decreases z - k,
            {
                let ghost e0 = seqs_of(e@);
                let zero = chars_of("0");
                e.push(zero);
                assert(seqs_of(e@) =~= e0.push("0"@));
                assert(hs + Seq::new((k + 1) as nat, |j: int| "0"@) =~= (hs + Seq::new(
                    k as nat,
                    |j: int| "0"@,
                )).push("0"@));
                k = k + 1;
            }
            let ghost mid = seqs_of(e@);
            let mut j: usize = 0;
            while j < t.len()
                invariant
                    0 <= j <= t.len(),
                    ts == seqs_of(t@),
                    seqs_of(e@) =~= mid + ts.take(j as int),
                decreases t.len() - j,
            {
                let ghost e0 = seqs_of(e@);
                let g = subchars(&t[j], 0, t[j].len());
                assert(g@ =~= ts[j as int]);
                e.push(g);
                assert(seqs_of(e@) =~= e0.push(ts[j as int]));
                assert(ts.take(j + 1) =~= ts.take(j as int).push(ts[j as int]));
                j = j + 1;
            }
            assert(ts.take(t.len() as int) =~= ts);
            e
        },
        None => split_colon(v),
    }
}

fn group_or_zero_chars(e: &Vec<Vec<char>>, k: usize) -> (g: Vec<char>)
    ensures
        g@ == group_or_zero(seqs_of(e@), k as int),
{
    if k < e.len() {
        subchars(&e[k], 0, e[k].len())
    } else {
        chars_of("0")
    }
}

fn take_chars(v: &Vec<char>, n: usize) -> (r: Vec<char>)
    requires
        n <= v.len(),
    ensures
        r@ == v@.take(n as int),
{
    let mut r: Vec<char> = Vec::new();
    let mut k: usize = 0;
    while k < n
        invariant
            0 <= k <= n <= v.len(),
            r@ =~= v@.take(k as int),
        decreases n - k,
    {
        r.push(v[k]);
        k = k + 1;
    }
    r
}

pub fn mask_ip(ip: &str) -> (r: String)
    ensures
        r@ == spec_mask_ip(ip@),
{
    let s = chars_of(ip);
    let n = s.len();
    let mut j: usize = n;
    assert(s@.take(n as int) =~= s@);
    while j > 0 && s[j - 1] != '.'
        invariant
            0 <= j <= n,
            n == s@.len(),
            last_index_of(s@, '.') == last_index_of(s@.take(j as int), '.'),
        decreases j,
    {
        assert(s@.take(j as int).drop_last() =~= s@.take(j - 1));
        j = j - 1;
    }
    if j > 0 {
        assert(s@.take(j as int).last() == '.');
        let head = take_chars(&s, j - 1);
        return string_of(&head).concat(".xxx");
    }
    assert(s@.take(0) =~= Seq::<char>::empty());
    let mut i: usize = 0;
    let mut any_colon = false;
    while i < n
        invariant
            0 <= i <= n,
            n == s@.len(),
            any_colon == (exists|k: int| 0 <= k < i && s@[k] == ':'),
        decreases n - i,
    {
        if s[i] == ':' {
            any_colon = true;
        }
        i = i + 1;
    }
    if any_colon {
        let e = expand_chars(&s);
        let g0 = group_or_zero_chars(&e, 0);
        let g1 = group_or_zero_chars(&e, 1);
        let g2 = group_or_zero_chars(&e, 2);
        string_of(&g0).concat(":").concat(string_of(&g1).as_str()).concat(":").concat(
            string_of(&g2).as_str(),
        ).concat("::xxxx")
    } else {
        assert(!s@.contains(':'));
        string_of(&s)
    }
}

/// Whether `needle` occurs in `hay` as a contiguous run.
pub open spec fn occurs_in(needle: Seq<char>, hay: Seq<char>) -> bool {
    exists|p: int|
        0 <= p && p + needle.len() <= hay.len() && #[trigger] hay.subrange(p, p + needle.len())
            == needle
}

/// No character of `x` is `c`.
pub open spec fn free_of(x: Seq<char>, c: char) -> bool {
    forall|j: int| 0 <= j < x.len() ==> x[j] != c
}

/// Total length of the pieces, each counted with one separator.
pub open spec fn pieces_len(ps: Seq<Seq<char>>) -> int
    decreases ps.len(),
{
    if ps.len() == 0 {
        0
    } else {
        pieces_len(ps.drop_last()) + ps.last().len() + 1
    }
}

proof fn lemma_last_index_of(s: Seq<char>, c: char)
    ensures
        (last_index_of(s, c) is Some) == s.contains(c),
        last_index_of(s, c) matches Some(i) ==> 0 <= i < s.len() && s[i] == c,
    decreases s.len(),
{
    if s.len() > 0 {
        lemma_last_index_of(s.drop_last(), c);
        if s.last() != c && s.contains(c) {
            let k = choose|k: int| 0 <= k < s.len() && s[k] == c;
            assert(s.drop_last()[k] == c);
        }
        if s.drop_last().contains(c) {
            let k = choose|k: int| 0 <= k < s.drop_last().len() && s.drop_last()[k] == c;
            assert(s[k] == c);
        }
    }
}

proof fn lemma_split_on_shape(s: Seq<char>, c: char)
    ensures
        split_on(s, c).len() >= 1,
        forall|k: int| 0 <= k < split_on(s, c).len() ==> free_of(#[trigger] split_on(s, c)[k], c),
        pieces_len(split_on(s, c)) == s.len() + 1,
    decreases s.len(),
{
    if s.len() == 0 {
        let u = seq![Seq::<char>::empty()];
        assert(u.drop_last() =~= Seq::<Seq<char>>::empty());
        assert(pieces_len(u) == pieces_len(u.drop_last()) + u.last().len() + 1);
    } else {
        let q = s.drop_last();
        lemma_split_on_shape(q, c);
        let p = split_on(q, c);
        if s.last() == c {
            let u = p.push(Seq::<char>::empty());
            assert(u.drop_last() =~= p);
            assert(pieces_len(u) == pieces_len(p) + 1);
            assert forall|k: int| 0 <= k < u.len() implies free_of(#[trigger] u[k], c) by {
                if k < p.len() {
                    assert(u[k] == p[k]);
                }
            }
        } else {
            let u = p.update(p.len() - 1, p.last().push(s.last()));
            assert(u.drop_last() =~= p.drop_last());
            assert(u.last() == p.last().push(s.last()));
            assert(pieces_len(u) == pieces_len(u.drop_last()) + u.last().len() + 1);
            assert(pieces_len(p) == pieces_len(p.drop_last()) + p.last().len() + 1);
            assert(pieces_len(u) == pieces_len(p) + 1);
            assert forall|k: int| 0 <= k < u.len() implies free_of(#[trigger] u[k], c) by {
                if k < p.len() - 1 {
                    assert(u[k] == p[k]);
                } else {
                    assert(free_of(p[k], c));
                }
            }
        }
    }
}

/// With at least three non-empty pieces, the later ones add at least two each.
proof fn lemma_pieces_len_lower(ps: Seq<Seq<char>>)
    requires
        ps.len() >= 3,
        forall|k: int| 0 <= k < ps.len() ==> #[trigger] ps[k].len() > 0,
    ensures
        pieces_len(ps) >= ps[0].len() + ps[1].len() + ps[2].len() + 3 + 2 * (ps.len() - 3),
    decreases ps.len(),
{
    let d = ps.drop_last();
    if ps.len() == 3 {
        let d2 = d.drop_last();
        let d3 = d2.drop_last();
        assert(d3.len() == 0);
        assert(pieces_len(d3) == 0);
        assert(d2.last() == ps[0]);
        assert(d.last() == ps[1]);
        assert(pieces_len(d2) == pieces_len(d3) + d2.last().len() + 1);
        assert(pieces_len(d) == pieces_len(d2) + d.last().len() + 1);
        assert(pieces_len(ps) == pieces_len(d) + ps.last().len() + 1);
    } else {
        assert forall|k: int| 0 <= k < d.len() implies #[trigger] d[k].len() > 0 by {
            assert(d[k] == ps[k]);
        }
        lemma_pieces_len_lower(d);
        assert(d[0] == ps[0] && d[1] == ps[1] && d[2] == ps[2]);
        assert(ps.last().len() > 0);
        assert(pieces_len(ps) == pieces_len(d) + ps.last().len() + 1);
    }
}

proof fn lemma_expand_free(s: Seq<char>)
    ensures
        forall|k: int|
            0 <= k < expand_groups(s).len() ==> free_of(#[trigger] expand_groups(s)[k], ':'),
{
    reveal_strlit("0");
    match double_colon_from(s, 0) {
        Some(i) => {
            let hs = s.take(i);
            let ts = s.skip(i + 2);
            lemma_split_on_shape(hs, ':');
            lemma_split_on_shape(ts, ':');
            let h = groups_of(hs);
            let t = groups_of(ts);
            let e = expand_groups(s);
            let z: nat = if h.len() + t.len() < 8 {
                (8 - h.len() - t.len()) as nat
            } else {
                0
            };
            assert(e == h + Seq::new(z, |k: int| "0"@) + t);
            assert forall|k: int| 0 <= k < e.len() implies free_of(#[trigger] e[k], ':') by {
                if k < h.len() {
                    assert(e[k] == h[k]);
                } else if k < h.len() + z {
                    assert(e[k] == "0"@);
                } else {
                    assert(e[k] == t[k - h.len() - z]);
                }
            }
        },
        None => {
            lemma_split_on_shape(s, ':');
        },
    }
}

/// Where the colons of `g0:g1:g2` are, for colon-free groups.
proof fn lemma_joined_colons(g0: Seq<char>, g1: Seq<char>, g2: Seq<char>, x: int)
    requires
        free_of(g0, ':'),
        free_of(g1, ':'),
        free_of(g2, ':'),
        0 <= x < g0.len() + g1.len() + g2.len() + 2,
        (g0 + ":"@ + g1 + ":"@ + g2)[x] == ':',
    ensures
        x == g0.len() || x == g0.len() + g1.len() + 1,
{
    reveal_strlit(":");
    let q = g0 + ":"@ + g1 + ":"@ + g2;
    let a = g0.len() as int;
    let b = g1.len() as int;
    if x < a {
        assert(q[x] == g0[x]);
    } else if a < x < a + b + 1 {
        assert(q[x] == g1[x - a - 1]);
    } else if x > a + b + 1 {
        assert(q[x] == g2[x - a - b - 2]);
    }
}

/// A text whose last character appears nowhere in `tail` and that occurs in
/// `head + tail` lies within `head`.
proof fn lemma_window_in_head(s: Seq<char>, head: Seq<char>, tail: Seq<char>, p: int)
    requires
        s.len() > 0,
        forall|j: int| 0 <= j < tail.len() ==> #[trigger] tail[j] != s.last(),
        0 <= p,
        p + s.len() <= head.len() + tail.len(),
        (head + tail).subrange(p, p + s.len()) == s,
    ensures
        p + s.len() <= head.len(),
        forall|j: int| 0 <= j < s.len() ==> s[j] == #[trigger] head[p + j],
{
    let r = head + tail;
    let last = p + s.len() - 1;
    assert(r.subrange(p, p + s.len())[s.len() - 1] == r[last]);
    if last >= head.len() {
        assert(r[last] == tail[last - head.len()]);
    }
    assert forall|j: int| 0 <= j < s.len() implies s[j] == #[trigger] head[p + j] by {
        assert(r.subrange(p, p + s.len())[j] == r[p + j]);
    }
}

/// The masked IPv4 text: the address does not fit into what is kept.
proof fn lemma_mask_v4_hides(s: Seq<char>, i: int)
    requires
        0 <= i < s.len(),
        s.last() != 'x',
        s.last() != '.',
    ensures
        !occurs_in(s, s.take(i) + ".xxx"@),
{
    reveal_strlit(".xxx");
    let r = s.take(i) + ".xxx"@;
    if occurs_in(s, r) {
        let p = choose|p: int|
            0 <= p && p + s.len() <= r.len() && #[trigger] r.subrange(p, p + s.len()) == s;
        lemma_window_in_head(s, s.take(i), ".xxx"@, p);
    }
}

/// The masked IPv6 text: a `::` of the address finds no two adjacent colons
/// among the kept groups, and without `::` the address is too long for them.
proof fn lemma_mask_v6_hides(s: Seq<char>)
    requires
        s.len() > 0,
        s.last() != 'x',
        s.last() != ':',
        forall|k: int| 0 <= k < expand_groups(s).len() ==> #[trigger] expand_groups(s)[k].len() > 0,
        double_colon_from(s, 0) is None ==> expand_groups(s).len() >= 4,
    ensures
        !occurs_in(s, spec_mask_v6(s)),
{
    reveal_strlit("::xxxx");
    reveal_strlit(":");
    reveal_strlit("0");
    let e = expand_groups(s);
    let g0 = group_or_zero(e, 0);
    let g1 = group_or_zero(e, 1);
    let g2 = group_or_zero(e, 2);
    lemma_expand_free(s);
    assert(free_of(g0, ':') && g0.len() > 0) by {
        if 0 < e.len() {
            assert(free_of(e[0], ':') && e[0].len() > 0);
        }
    }
    assert(free_of(g1, ':') && g1.len() > 0) by {
        if 1 < e.len() {
            assert(free_of(e[1], ':') && e[1].len() > 0);
        }
    }
    assert(free_of(g2, ':') && g2.len() > 0) by {
        if 2 < e.len() {
            assert(free_of(e[2], ':') && e[2].len() > 0);
        }
    }
    let q = g0 + ":"@ + g1 + ":"@ + g2;
    let r = spec_mask_v6(s);
    assert(r == q + "::xxxx"@);
    if occurs_in(s, r) {
        let p = choose|p: int|
            0 <= p && p + s.len() <= r.len() && #[trigger] r.subrange(p, p + s.len()) == s;
        lemma_window_in_head(s, q, "::xxxx"@, p);
        match double_colon_from(s, 0) {
            Some(i) => {
                lemma_double_colon_at(s, 0);
                let x = p + i;
                assert(q[x] == ':' && q[x + 1] == ':');
                lemma_joined_colons(g0, g1, g2, x);
                lemma_joined_colons(g0, g1, g2, x + 1);
            },
            None => {
                lemma_split_on_shape(s, ':');
                lemma_pieces_len_lower(e);
            },
        }
    }
}

/// The persistent log never holds the exact address. An IPv4 address loses
/// its last octet; an IPv6 address keeps only its /48, so the masked text
/// never contains the address. The address must have the shape of one: not
/// ending in a separator or in `x`, and for IPv6 non-empty groups, with at
/// least four of them when it has no `::`.
pub proof fn lemma_mask_hides_address(s: Seq<char>)
    requires
        s.contains('.') || s.contains(':'),
        s.len() > 0,
        s.last() != 'x',
        s.last() != '.',
        s.last() != ':',
        !s.contains('.') ==> forall|k: int|
            0 <= k < expand_groups(s).len() ==> #[trigger] expand_groups(s)[k].len() > 0,
        !s.contains('.') && double_colon_from(s, 0) is None ==> expand_groups(s).len() >= 4,
    ensures
        !occurs_in(s, spec_mask_ip(s)),
{
    lemma_last_index_of(s, '.');
    match last_index_of(s, '.') {
        Some(i) => lemma_mask_v4_hides(s, i),
        None => lemma_mask_v6_hides(s),
    }
}

proof fn lemma_double_colon_at(s: Seq<char>, i: int)
    requires
        0 <= i,
    ensures
        double_colon_from(s, i) matches Some(j) ==> i <= j && j + 1 < s.len() && s[j] == ':' && s[j
            + 1] == ':',
    decreases s.len() - i,
{
    if i + 1 < s.len() && !(s[i] == ':' && s[i + 1] == ':') {
        lemma_double_colon_at(s, i + 1);
    }
}


pub open spec fn set_check(cs: Seq<CheckView>, id: &str, state: Seq<char>, detail: Seq<char>) -> Seq<
    CheckView,
> {
    spec_update_check(cs, id@, state, Some(detail))
}

pub open spec fn mark_check(cs: Seq<CheckView>, id: &str, state: Seq<char>) -> Seq<CheckView> {
    spec_update_check(cs, id@, state, None)
}

/// The lines after logging `line` when `cond` holds.
pub open spec fn push_if(lines: Seq<Seq<char>>, cond: bool, line: Seq<char>) -> Seq<Seq<char>> {
    if cond {
        ring_push(lines, line)
    } else {
        lines
    }
}

pub open spec fn diag_line(ts: u64, level: char, msg: Seq<char>) -> Seq<char> {
    log_line(ts, level, TAG@, msg)
}

/// The country code shown for an exit address (`??` when unknown).
pub open spec fn cc_or_unknown(info: IpInfoView) -> Seq<char> {
    match info.country_code {
        Some(cc) => cc,
        None => "??"@,
    }
}

pub open spec fn exit_detail(info: IpInfoView) -> Seq<char> {
    "exit "@ + info.ip + " "@ + cc_or_unknown(info)
}

pub open spec fn exit_log_message(info: IpInfoView, ms: u64) -> Seq<char> {
    "DNS+HTTP via tunnel: OK — exit "@ + spec_mask_ip(info.ip) + " "@ + cc_or_unknown(info) + " ("@
        + decimal(ms as nat) + " ms)"@
}

/// Progress of one self-test run: whether raw TCP through the proxy worked and,
/// once DNS + HTTP through the tunnel worked, the exit address and its latency.
pub struct SelfTest {
    pub tcp_ok: bool,
    pub dns: Option<(IpInfo, u64)>,
}

fn log_diag(log: &mut DiagnosticsLog, ts: u64, level: char, msg: &str)
    requires
        level == 'I' || level == 'W' || level == 'E',
    ensures
        final(log).lines() == ring_push(old(log).lines(), diag_line(ts, level, msg@)),
        final(log).check_rows() == old(log).check_rows(),
        final(log).unflushed() == old(log).unflushed().push(diag_line(ts, level, msg@)),
{
    if level == 'I' {
        log.i(ts, TAG, msg)
    } else if level == 'W' {
        log.w(ts, TAG, msg)
    } else {
        log.e(ts, TAG, msg)
    }
}

impl SelfTest {
    /// Resets the checks and starts the SOCKS5 port check.
    pub fn begin(log: &mut DiagnosticsLog, ts: u64) -> (t: SelfTest)
        ensures
            !t.tcp_ok,
            t.dns is None,
            final(log).check_rows() == mark_check(fresh_checks(), C_PORT, "RUNNING"@),
            final(log).lines() == ring_push(
                old(log).lines(),
                diag_line(ts, 'I', "Starting connectivity self-test…"@),
            ),
    {
        reset_checks(log);
        log_diag(log, ts, 'I', "Starting connectivity self-test…");
        log.update_check(C_PORT, "RUNNING", None);
        SelfTest { tcp_ok: false, dns: None }
    }

    /// Records whether the SOCKS5 port is open; a closed port ends the test
    /// with the returned failed outcome.
    pub fn port_checked(&mut self, log: &mut DiagnosticsLog, ts: u64, open: bool) -> (r: Option<
        SelfTestOutcome,
    >)
        ensures
            final(self).tcp_ok == old(self).tcp_ok,
            final(self).dns is None <==> old(self).dns is None,
            open ==> r is None,
            open ==> final(log).check_rows() == set_check(
                old(log).check_rows(),
                C_PORT,
                "PASS"@,
                "listening"@,
            ),
            open ==> final(log).lines() == ring_push(
                old(log).lines(),
                diag_line(ts, 'I', "SOCKS5 port check: open"@),
            ),
            !open ==> (r matches Some(o) && !o.ok && o.exit is None && o.latency_ms is None),
            !open ==> final(log).check_rows() == set_check(
                set_check(
                    set_check(
                        set_check(old(log).check_rows(), C_PORT, "FAIL"@, "no listener"@),
                        C_HANDSHAKE,
                        "FAIL"@,
                        "skipped"@,
                    ),
                    C_TCP,
                    "FAIL"@,
                    "skipped"@,
                ),
                C_DNS,
                "FAIL"@,
                "skipped"@,
            ),
            !open ==> final(log).lines() == ring_push(
                old(log).lines(),
                diag_line(
                    ts,
                    'E',
                    "SOCKS5 port check: nothing is listening — the engine is not up."@,
                ),
            ),
    {
        if open {
            log.update_check(C_PORT, "PASS", Some("listening"));
            log_diag(log, ts, 'I', "SOCKS5 port check: open");
            None
        } else {
            log.update_check(C_PORT, "FAIL", Some("no listener"));
            log_diag(
                log,
                ts,
                'E',
                "SOCKS5 port check: nothing is listening — the engine is not up.",
            );
            log.update_check(C_HANDSHAKE, "FAIL", Some("skipped"));
            log.update_check(C_TCP, "FAIL", Some("skipped"));
            log.update_check(C_DNS, "FAIL", Some("skipped"));
            Some(SelfTestOutcome { ok: false, exit: None, latency_ms: None })
        }
    }

    /// Records the SOCKS5 handshake result and starts the two outbound checks.
    pub fn handshake_checked(&mut self, log: &mut DiagnosticsLog, ts: u64, ok: bool)
        ensures
            final(self).tcp_ok == old(self).tcp_ok,
            final(self).dns is None <==> old(self).dns is None,
            final(log).check_rows() == mark_check(
                mark_check(
                    if ok {
                        set_check(
                            mark_check(old(log).check_rows(), C_HANDSHAKE, "RUNNING"@),
                            C_HANDSHAKE,
                            "PASS"@,
                            "method accepted"@,
                        )
                    } else {
                        set_check(
                            mark_check(old(log).check_rows(), C_HANDSHAKE, "RUNNING"@),
                            C_HANDSHAKE,
                            "FAIL"@,
                            "no SOCKS5 reply"@,
                        )
                    },
                    C_TCP,
                    "RUNNING"@,
                ),
                C_DNS,
                "RUNNING"@,
            ),
            final(log).lines() == ring_push(
                old(log).lines(),
                if ok {
                    diag_line(ts, 'I', "SOCKS5 handshake: OK"@)
                } else {
                    diag_line(
                        ts,
                        'E',
                        "SOCKS5 handshake failed — the port is open but it is not a SOCKS5 server."@,
                    )
                },
            ),
    {
        log.update_check(C_HANDSHAKE, "RUNNING", None);
        if ok {
            log.update_check(C_HANDSHAKE, "PASS", Some("method accepted"));
            log_diag(log, ts, 'I', "SOCKS5 handshake: OK");
        } else {
            log.update_check(C_HANDSHAKE, "FAIL", Some("no SOCKS5 reply"));
            log_diag(
                log,
                ts,
                'E',
                "SOCKS5 handshake failed — the port is open but it is not a SOCKS5 server.",
            );
        }
        log.update_check(C_TCP, "RUNNING", None);
        log.update_check(C_DNS, "RUNNING", None);
    }

    /// Whether raw TCP through the proxy still has to be probed.
    pub fn wants_tcp(&self) -> (r: bool)
        ensures
            r == !self.tcp_ok,
    {
        !self.tcp_ok
    }

    /// Whether DNS + HTTP through the tunnel still has to be probed.
    pub fn wants_dns(&self) -> (r: bool)
        ensures
            r == self.dns is None,
    {
        self.dns.is_none()
    }

    /// Whether both outbound checks have passed.
    pub fn complete(&self) -> (r: bool)
        ensures
            r == (self.tcp_ok && self.dns is Some),
    {
        self.tcp_ok && self.dns.is_some()
    }

    /// Records one raw-TCP probe.
    pub fn record_tcp(&mut self, log: &mut DiagnosticsLog, ts: u64, ok: bool)
        requires
            !old(self).tcp_ok,
        ensures
            final(self).tcp_ok == ok,
            final(self).dns is None <==> old(self).dns is None,
            final(log).check_rows() == if ok {
                set_check(old(log).check_rows(), C_TCP, "PASS"@, "connected"@)
            } else {
                old(log).check_rows()
            },
            final(log).lines() == push_if(
                old(log).lines(),
                ok,
                diag_line(ts, 'I', "TCP via proxy: OK"@),
            ),
    {
        self.tcp_ok = ok;
        if ok {
            log.update_check(C_TCP, "PASS", Some("connected"));
            log_diag(log, ts, 'I', "TCP via proxy: OK");
        }
    }

    /// Records one DNS + HTTP probe through the tunnel; `ms` is how long it took.
    pub fn record_dns(&mut self, log: &mut DiagnosticsLog, ts: u64, result: Option<IpInfo>, ms: u64)
        requires
            old(self).dns is None,
        ensures
            final(self).tcp_ok == old(self).tcp_ok,
            match result {
                Some(info) => (final(self).dns matches Some(d) && d.0@ == info@ && d.1 == ms),
                None => final(self).dns is None,
            },
            final(log).check_rows() == match result {
                Some(info) => set_check(old(log).check_rows(), C_DNS, "PASS"@, exit_detail(info@)),
                None => old(log).check_rows(),
            },
            final(log).lines() == match result {
                Some(info) => ring_push(old(log).lines(), diag_line(ts, 'I', exit_log_message(info@, ms))),
                None => old(log).lines(),
            },
    {
        if let Some(info) = result {
            let cc = match &info.country_code {
                Some(c) => c.clone(),
                None => String::from_str("??"),
            };
            let detail = String::from_str("exit ").concat(info.ip.as_str()).concat(" ").concat(
                cc.as_str(),
            );
            log.update_check(C_DNS, "PASS", Some(detail.as_str()));
            let msg = String::from_str("DNS+HTTP via tunnel: OK — exit ").concat(
                mask_ip(info.ip.as_str()).as_str(),
            ).concat(" ").concat(cc.as_str()).concat(" (").concat(decimal_string(ms).as_str()).concat(
                " ms)",
            );
            log_diag(log, ts, 'I', msg.as_str());
            self.dns = Some((info, ms));
        }
    }

    /// Marks whatever did not pass as failed and returns the outcome: the
    /// self-test passes exactly when DNS + HTTP through the tunnel worked.
    pub fn finish(self, log: &mut DiagnosticsLog, ts: u64) -> (o: SelfTestOutcome)
        ensures
            o.ok == self.dns is Some,
            match self.dns {
                Some(d) => (o.exit matches Some(e) && e@ == d.0@ && o.latency_ms == Some(d.1)),
                None => o.exit is None && o.latency_ms is None,
            },
            final(log).check_rows() == ({
                let c1 = if !self.tcp_ok {
                    set_check(
                        old(log).check_rows(),
                        C_TCP,
                        "FAIL"@,
                        "could not reach 1.1.1.1:80 through the proxy"@,
                    )
                } else {
                    old(log).check_rows()
                };
                if self.dns is None {
                    set_check(c1, C_DNS, "FAIL"@, "no HTTP response through the tunnel"@)
                } else {
                    c1
                }
            }),
            final(log).lines() == push_if(
                push_if(
                    old(log).lines(),
                    !self.tcp_ok,
                    diag_line(
                        ts,
                        'E',
                        "TCP via proxy failed — the engine accepted the connection but no upstream is flowing."@,
                    ),
                ),
                self.dns is None,
                if self.tcp_ok {
                    diag_line(
                        ts,
                        'W',
                        "Raw TCP works but DNS+HTTP failed — upstream DNS looks broken."@,
                    )
                } else {
                    diag_line(ts, 'W', "No outbound path at all — the tunnel has no upstream yet."@)
                },
            ),
    {
        if !self.tcp_ok {
            log.update_check(
                C_TCP,
                "FAIL",
                Some("could not reach 1.1.1.1:80 through the proxy"),
            );
            log_diag(
                log,
                ts,
                'E',
                "TCP via proxy failed — the engine accepted the connection but no upstream is flowing.",
            );
        }
        let ok = self.dns.is_some();
        if !ok {
            log.update_check(C_DNS, "FAIL", Some("no HTTP response through the tunnel"));
            if self.tcp_ok {
                log_diag(
                    log,
                    ts,
                    'W',
                    "Raw TCP works but DNS+HTTP failed — upstream DNS looks broken.",
                );
            } else {
                log_diag(log, ts, 'W', "No outbound path at all — the tunnel has no upstream yet.");
            }
        }
        match self.dns {
            Some((info, ms)) => SelfTestOutcome { ok, exit: Some(info), latency_ms: Some(ms) },
            None => SelfTestOutcome { ok, exit: None, latency_ms: None },
        }
    }
}


/// Outcome of one environment check.
#[derive(Debug, Clone, Copy, PartialEq, Eq, Structural)]
pub enum Verdict {
    Pass,
    Warn,
    Fail,
}

#[derive(Debug)]
pub struct Check {
    pub name: String,
    pub verdict: Verdict,
    pub detail: String,
}

#[derive(Debug)]
pub struct Report {
    pub checks: Vec<Check>,
    pub summary: String,
}

pub struct CheckRow {
    pub name: Seq<char>,
    pub verdict: Verdict,
    pub detail: Seq<char>,
}

impl View for Check {
    type V = CheckRow;

    open spec fn view(&self) -> CheckRow {
        CheckRow { name: self.name@, verdict: self.verdict, detail: self.detail@ }
    }
}

/// What the environment report looks at, gathered from the machine.
pub struct EnvFacts {
    /// The engine executable's path and whether it exists; `None` when the
    /// install directory could not be resolved.
    pub engine_exe: Option<(String, bool)>,
    /// Whether `wintun.dll` is present next to the engine.
    pub wintun_present: bool,
    /// Whether the process runs with Administrator rights.
    pub elevated: bool,
    /// Whether something listens on the engine's SOCKS5 port.
    pub socks_listening: bool,
    /// A verified egress: the endpoint that answered and the round trip in milliseconds.
    pub egress: Option<(String, u64)>,
}

pub open spec fn row(name: Seq<char>, verdict: Verdict, detail: Seq<char>) -> CheckRow {
    CheckRow { name, verdict, detail }
}

/// The six checks of the environment report, in order.
pub open spec fn spec_env_checks(f: EnvFacts, mtu: u32) -> Seq<CheckRow> {
    seq![
        match f.engine_exe {
            Some((p, true)) => row("Engine binary"@, Verdict::Pass, p@),
            Some((p, false)) => row("Engine binary"@, Verdict::Fail, "Missing: "@ + p@),
            None => row("Engine binary"@, Verdict::Fail, "Could not resolve the install directory"@),
        },
        if f.wintun_present {
            row("Wintun driver"@, Verdict::Pass, "Present"@)
        } else {
            row("Wintun driver"@, Verdict::Warn, "wintun.dll missing — system-proxy mode still works"@)
        },
        if f.elevated {
            row("Administrator rights"@, Verdict::Pass, "Running elevated"@)
        } else {
            row(
                "Administrator rights"@,
                Verdict::Warn,
                "Not elevated — connection uses the Windows system proxy instead of a TUN adapter"@,
            )
        },
        if f.socks_listening {
            row("Local SOCKS5"@, Verdict::Pass, "127.0.0.1:"@ + decimal(LOCAL_SOCKS_PORT as nat))
        } else {
            row("Local SOCKS5"@, Verdict::Warn, "Not listening (expected while disconnected)"@)
        },
        match f.egress {
            Some((e, ms)) => row("Tunnel egress"@, Verdict::Pass, e@ + " in "@ + decimal(ms as nat) + " ms"@),
            None => row("Tunnel egress"@, Verdict::Warn, "No verified egress yet"@),
        },
        if 576 <= mtu <= 9000 {
            row("Profile"@, Verdict::Pass, "MTU "@ + decimal(mtu as nat))
        } else {
            row("Profile"@, Verdict::Warn, "Unusual MTU: "@ + decimal(mtu as nat))
        },
    ]
}

/// Number of rows with the given verdict.
pub open spec fn count_verdict(rows: Seq<CheckRow>, v: Verdict) -> nat
    decreases rows.len(),
{
    if rows.len() == 0 {
        0
    } else {
        count_verdict(rows.drop_last(), v) + if rows.last().verdict == v {
            1nat
        } else {
            0nat
        }
    }
}

/// The one-line verdict over all checks.
pub open spec fn spec_summary(rows: Seq<CheckRow>) -> Seq<char> {
    let failed = count_verdict(rows, Verdict::Fail);
    let warned = count_verdict(rows, Verdict::Warn);
    if failed > 0 {
        decimal(failed) + " blocking problem(s) found"@
    } else if warned > 0 {
        decimal(warned) + " warning(s), nothing blocking"@
    } else {
        "Everything looks healthy"@
    }
}

fn check(name: &str, verdict: Verdict, detail: String) -> (c: Check)
    ensures
        c@ == row(name@, verdict, detail@),
{
    Check { name: String::from_str(name), verdict, detail }
}

fn count_of(rows: &Vec<Check>, v: Verdict) -> (n: u64)
    requires
        rows.len() < 100,
    ensures
        n == count_verdict(rows@.map_values(|c: Check| c@), v),
{
    let ghost rv = rows@.map_values(|c: Check| c@);
    let mut n: u64 = 0;
    let mut k: usize = 0;
    while k < rows.len()
        invariant
            0 <= k <= rows.len() < 100,
            rv == rows@.map_values(|c: Check| c@),
            n == count_verdict(rv.take(k as int), v),
            n <= k,
        decreases rows.len() - k,
    {
        assert(rv.take(k + 1).drop_last() =~= rv.take(k as int));
        if rows[k].verdict == v {
            n = n + 1;
        }
        k = k + 1;
    }
    assert(rv.take(rows.len() as int) =~= rv);
    n
}

/// The environment report ("Environment check"): six checks and a summary.
pub fn run(facts: &EnvFacts, profile: &ConnectionProfile) -> (r: Report)
    ensures
        r.checks@.map_values(|c: Check| c@) == spec_env_checks(*facts, profile.mtu),
        r.summary@ == spec_summary(spec_env_checks(*facts, profile.mtu)),
{
    let mut checks: Vec<Check> = Vec::new();
    checks.push(
        match &facts.engine_exe {
            Some((p, true)) => check("Engine binary", Verdict::Pass, p.clone()),
            Some((p, false)) => check(
                "Engine binary",
                Verdict::Fail,
                String::from_str("Missing: ").concat(p.as_str()),
            ),
            None => check(
                "Engine binary",
                Verdict::Fail,
                String::from_str("Could not resolve the install directory"),
            ),
        },
    );
    checks.push(
        if facts.wintun_present {
            check("Wintun driver", Verdict::Pass, String::from_str("Present"))
        } else {
            check(
                "Wintun driver",
                Verdict::Warn,
                String::from_str("wintun.dll missing — system-proxy mode still works"),
            )
        },
    );
    checks.push(
        if facts.elevated {
            check("Administrator rights", Verdict::Pass, String::from_str("Running elevated"))
        } else {
            check(
                "Administrator rights",
                Verdict::Warn,
                String::from_str(
                    "Not elevated — connection uses the Windows system proxy instead of a TUN adapter",
                ),
            )
        },
    );
    checks.push(
        if facts.socks_listening {
            check(
                "Local SOCKS5",
                Verdict::Pass,
                String::from_str("127.0.0.1:").concat(
                    decimal_string(LOCAL_SOCKS_PORT as u64).as_str(),
                ),
            )
        } else {
            check(
                "Local SOCKS5",
                Verdict::Warn,
                String::from_str("Not listening (expected while disconnected)"),
            )
        },
    );
    checks.push(
        match &facts.egress {
            Some((e, ms)) => check(
                "Tunnel egress",
                Verdict::Pass,
                e.clone().concat(" in ").concat(decimal_string(*ms).as_str()).concat(" ms"),
            ),
            None => check("Tunnel egress", Verdict::Warn, String::from_str("No verified egress yet")),
        },
    );
    let mtu = profile.mtu;
    checks.push(
        if 576 <= mtu && mtu <= 9000 {
            check(
                "Profile",
                Verdict::Pass,
                String::from_str("MTU ").concat(decimal_string(mtu as u64).as_str()),
            )
        } else {
            check(
                "Profile",
                Verdict::Warn,
                String::from_str("Unusual MTU: ").concat(decimal_string(mtu as u64).as_str()),
            )
        },
    );
    let ghost rows = checks@.map_values(|c: Check| c@);
    assert(rows =~= spec_env_checks(*facts, profile.mtu));
    let failed = count_of(&checks, Verdict::Fail);
    let warned = count_of(&checks, Verdict::Warn);
    let summary = if failed > 0 {
        decimal_string(failed).concat(" blocking problem(s) found")
    } else if warned > 0 {
        decimal_string(warned).concat(" warning(s), nothing blocking")
    } else {
        String::from_str("Everything looks healthy")
    };
    Report { checks, summary }
}

} // verus!
