//! The strategy ladder: which engine configurations a connection tries, in order.

use vstd::prelude::*;
use crate::profile::{
    ConnectionProfile, IpVersion, Noize, ProfileView, Protocol, spec_connect_timeout_ms,
    spec_has_manual_peer,
};
use crate::text::{decimal, joined, lemma_joined_push};

verus! {

/// Upper bound for the plain first pass of the Smart Auto ladder.
pub const FIRST_PASS_MAX_MS: u64 = 35_000;

/// Upper bound for the as-configured pass of a manually chosen protocol.
pub const DIRECT_FIRST_PASS_MAX_MS: u64 = 75_000;

/// Upper bound for the hardened passes that are not the last resort.
pub const HARDENED_PASS_MAX_MS: u64 = 120_000;

/// One ready-to-run strategy.
#[derive(Debug)]
pub struct Candidate {
    pub profile: ConnectionProfile,
    pub timeout_ms: u64,
    pub label: String,
}

pub struct CandidateView {
    pub profile: ProfileView,
    pub timeout_ms: u64,
    pub label: Seq<char>,
}

impl View for Candidate {
    type V = CandidateView;

    open spec fn view(&self) -> CandidateView {
        CandidateView { profile: self.profile@, timeout_ms: self.timeout_ms, label: self.label@ }
    }
}

impl Clone for Candidate {
    fn clone(&self) -> (c: Self)
        ensures
            c@ == self@,
    {
        Candidate {
            profile: self.profile.clone(),
            timeout_ms: self.timeout_ms,
            label: self.label.clone(),
        }
    }
}

/// The anti-DPI hardened variant of a profile.
pub open spec fn spec_harden(p: ProfileView) -> ProfileView {
    let p1 = if p.noize == Noize::Off {
        ProfileView { noize: Noize::Firewall, ..p }
    } else {
        p
    };
    if p1.protocol == Protocol::Masque {
        ProfileView { masque_http2: true, fragment: true, ech: true, ..p1 }
    } else {
        p1
    }
}

/// Upper-case protocol name used in labels.
pub open spec fn protocol_name(p: Protocol) -> Seq<char> {
    match p {
        Protocol::Smart => "SMART"@,
        Protocol::Masque => "MASQUE"@,
        Protocol::Wireguard => "WIREGUARD"@,
        Protocol::Gool => "GOOL"@,
    }
}

pub open spec fn as_configured_label(p: Protocol) -> Seq<char> {
    protocol_name(p) + " · as configured"@
}

pub open spec fn hardened_label(p: Protocol) -> Seq<char> {
    protocol_name(p) + " · hardened anti-DPI"@
}

pub open spec fn cand(profile: ProfileView, timeout_ms: u64, label: Seq<char>) -> CandidateView {
    CandidateView { profile, timeout_ms, label }
}

pub open spec fn min_u64(a: u64, b: u64) -> u64 {
    if a < b {
        a
    } else {
        b
    }
}

/// Manual protocol: the profile as configured (capped at 75 s), then (if it
/// differs) its hardened variant with the full timeout.
pub open spec fn spec_direct_plan(u: ProfileView, hostile: bool) -> Seq<CandidateView> {
    let full = spec_connect_timeout_ms(u);
    let h = spec_harden(u);
    if h == u {
        seq![cand(u, full, as_configured_label(u.protocol))]
    } else {
        let a = cand(u, min_u64(full, DIRECT_FIRST_PASS_MAX_MS), as_configured_label(u.protocol));
        let b = cand(h, full, hardened_label(u.protocol));
        if hostile {
            seq![b, a]
        } else {
            seq![a, b]
        }
    }
}

/// Preference order of Smart Auto; IPv6-only networks lead with WireGuard.
pub open spec fn spec_auto_order(u: ProfileView) -> Seq<Protocol> {
    if u.ip_version == IpVersion::V6 {
        seq![Protocol::Wireguard, Protocol::Masque, Protocol::Gool]
    } else {
        seq![Protocol::Masque, Protocol::Gool, Protocol::Wireguard]
    }
}

pub open spec fn with_protocol(u: ProfileView, p: Protocol) -> ProfileView {
    ProfileView { protocol: p, ..u }
}

/// Smart Auto: the first protocol plain and hardened, then the others hardened.
pub open spec fn spec_auto_plan(u: ProfileView, hostile: bool) -> Seq<CandidateView> {
    let full = spec_connect_timeout_ms(u);
    let o = spec_auto_order(u);
    let b0 = with_protocol(u, o[0]);
    let a = cand(b0, min_u64(full, FIRST_PASS_MAX_MS), as_configured_label(o[0]));
    let h = cand(spec_harden(b0), min_u64(full, HARDENED_PASS_MAX_MS), hardened_label(o[0]));
    let c1 = cand(
        spec_harden(with_protocol(u, o[1])),
        min_u64(full, HARDENED_PASS_MAX_MS),
        hardened_label(o[1]),
    );
    let c2 = cand(spec_harden(with_protocol(u, o[2])), full, hardened_label(o[2]));
    if hostile {
        seq![h, a, c1, c2]
    } else {
        seq![a, h, c1, c2]
    }
}

/// The full connection plan for a user profile.
pub open spec fn spec_build_plan(u: ProfileView, hostile: bool) -> Seq<CandidateView> {
    if u.protocol == Protocol::Smart {
        spec_auto_plan(u, hostile)
    } else {
        spec_direct_plan(u, hostile)
    }
}

pub open spec fn plan_view(v: Seq<Candidate>) -> Seq<CandidateView> {
    v.map_values(|c: Candidate| c@)
}

/// The anti-DPI hardened variant of a profile.
pub fn harden(p: &ConnectionProfile) -> (h: ConnectionProfile)
    ensures
        h@ == spec_harden(p@),
{
    let mut h = p.clone();
    if h.noize == Noize::Off {
        h.noize = Noize::Firewall;
    }
    if h.protocol == Protocol::Masque {
        h.masque_http2 = true;
        h.fragment = true;
        h.ech = true;
    }
    h
}

/// Whether hardening would change the profile.
fn needs_hardening(p: &ConnectionProfile) -> (r: bool)
    ensures
        r == (spec_harden(p@) != p@),
{
    let r = p.noize == Noize::Off || (p.protocol == Protocol::Masque && !(p.masque_http2
        && p.fragment && p.ech));
    proof {
        let v = p@;
        if !r {
            assert(spec_harden(v) == v);
        } else if v.noize == Noize::Off {
            assert(spec_harden(v).noize != v.noize);
        } else {
            assert(spec_harden(v).masque_http2 != v.masque_http2 || spec_harden(v).fragment
                != v.fragment || spec_harden(v).ech != v.ech);
        }
    }
    r
}

fn name_of(p: Protocol) -> (s: String)
    ensures
        s@ == protocol_name(p),
{
    match p {
        Protocol::Smart => String::from_str("SMART"),
        Protocol::Masque => String::from_str("MASQUE"),
        Protocol::Wireguard => String::from_str("WIREGUARD"),
        Protocol::Gool => String::from_str("GOOL"),
    }
}

fn configured_label(p: Protocol) -> (s: String)
    ensures
        s@ == as_configured_label(p),
{
    name_of(p).concat(" · as configured")
}

fn hardened_label_of(p: Protocol) -> (s: String)
    ensures
        s@ == hardened_label(p),
{
    name_of(p).concat(" · hardened anti-DPI")
}

fn min_of(a: u64, b: u64) -> (r: u64)
    ensures
        r == min_u64(a, b),
{
    if a < b {
        a
    } else {
        b
    }
}

fn with_protocol_of(u: &ConnectionProfile, p: Protocol) -> (r: ConnectionProfile)
    ensures
        r@ == with_protocol(u@, p),
{
    let mut r = u.clone();
    r.protocol = p;
    r
}

/// Manual protocol: two passes at most, the protocol never changes.
fn direct_plan(user: &ConnectionProfile, hostile: bool) -> (plan: Vec<Candidate>)
    ensures
        plan_view(plan@) == spec_direct_plan(user@, hostile),
{
    let full = user.connect_timeout_ms();
    if !needs_hardening(user) {
        let mut plan: Vec<Candidate> = Vec::new();
        plan.push(
            Candidate {
                profile: user.clone(),
                timeout_ms: full,
                label: configured_label(user.protocol),
            },
        );
        assert(plan_view(plan@) =~= spec_direct_plan(user@, hostile));
        return plan;
    }
    let as_configured = Candidate {
        profile: user.clone(),
        timeout_ms: min_of(full, DIRECT_FIRST_PASS_MAX_MS),
        label: configured_label(user.protocol),
    };
    let anti_dpi = Candidate {
        profile: harden(user),
        timeout_ms: full,
        label: hardened_label_of(user.protocol),
    };
    let mut plan: Vec<Candidate> = Vec::new();
    if hostile {
        plan.push(anti_dpi);
        plan.push(as_configured);
    } else {
        plan.push(as_configured);
        plan.push(anti_dpi);
    }
    assert(plan_view(plan@) =~= spec_direct_plan(user@, hostile));
    plan
}

fn auto_order(u: &ConnectionProfile) -> (o: [Protocol; 3])
    ensures
        o@ == spec_auto_order(u@),
{
    if u.ip_version == IpVersion::V6 {
        let o = [Protocol::Wireguard, Protocol::Masque, Protocol::Gool];
        assert(o@ =~= spec_auto_order(u@));
        o
    } else {
        let o = [Protocol::Masque, Protocol::Gool, Protocol::Wireguard];
        assert(o@ =~= spec_auto_order(u@));
        o
    }
}

/// Smart Auto ladder.
fn auto_plan(user: &ConnectionProfile, hostile: bool) -> (plan: Vec<Candidate>)
    ensures
        plan_view(plan@) == spec_auto_plan(user@, hostile),
{
    let full = user.connect_timeout_ms();
    let order = auto_order(user);
    let p0 = order[0];
    let p1 = order[1];
    let p2 = order[2];
    let base0 = with_protocol_of(user, p0);
    let as_configured = Candidate {
        profile: base0.clone(),
        timeout_ms: min_of(full, FIRST_PASS_MAX_MS),
        label: configured_label(p0),
    };
    let anti_dpi = Candidate {
        profile: harden(&base0),
        timeout_ms: min_of(full, HARDENED_PASS_MAX_MS),
        label: hardened_label_of(p0),
    };
    let base1 = with_protocol_of(user, p1);
    let second = Candidate {
        profile: harden(&base1),
        timeout_ms: min_of(full, HARDENED_PASS_MAX_MS),
        label: hardened_label_of(p1),
    };
    let base2 = with_protocol_of(user, p2);
    let last = Candidate { profile: harden(&base2), timeout_ms: full, label: hardened_label_of(p2) };
    let mut plan: Vec<Candidate> = Vec::new();
    if hostile {
        plan.push(anti_dpi);
        plan.push(as_configured);
    } else {
        plan.push(as_configured);
        plan.push(anti_dpi);
    }
    plan.push(second);
    plan.push(last);
    assert(plan_view(plan@) =~= spec_auto_plan(user@, hostile));
    plan
}

/// The complete connection plan for a user profile.
pub fn build_plan(user: &ConnectionProfile, hostile: bool) -> (plan: Vec<Candidate>)
    ensures
        plan_view(plan@) == spec_build_plan(user@, hostile),
{
    if user.protocol == Protocol::Smart {
        auto_plan(user, hostile)
    } else {
        direct_plan(user, hostile)
    }
}

/// Single-protocol choice for a profile.
pub open spec fn spec_pick(p: ProfileView) -> Protocol {
    if p.protocol != Protocol::Smart {
        p.protocol
    } else if spec_has_manual_peer(p) {
        Protocol::Masque
    } else if p.ip_version == IpVersion::V6 {
        Protocol::Wireguard
    } else {
        Protocol::Masque
    }
}

pub fn pick(profile: &ConnectionProfile) -> (p: Protocol)
    ensures
        p == spec_pick(profile@),
{
    if profile.protocol != Protocol::Smart {
        return profile.protocol;
    }
    if profile.has_manual_peer() {
        return Protocol::Masque;
    }
    if profile.ip_version == IpVersion::V6 {
        return Protocol::Wireguard;
    }
    Protocol::Masque
}

/// The protocol tried after `failed` in the preference order Masque, Gool, WireGuard.
pub open spec fn spec_next_after(failed: Protocol) -> Option<Protocol> {
    match failed {
        Protocol::Masque => Some(Protocol::Gool),
        Protocol::Gool => Some(Protocol::Wireguard),
        _ => None,
    }
}

pub fn next_after(failed: Protocol) -> (r: Option<Protocol>)
    ensures
        r == spec_next_after(failed),
{
    let preference = [Protocol::Masque, Protocol::Gool, Protocol::Wireguard];
    let mut i: usize = 0;
    while i < 3
        invariant
            0 <= i <= 3,
            preference@ == seq![Protocol::Masque, Protocol::Gool, Protocol::Wireguard],
            forall|k: int| 0 <= k < i ==> preference@[k] != failed,
        decreases 3 - i,
    {
        if preference[i] == failed {
            if i + 1 < 3 {
                return Some(preference[i + 1]);
            } else {
                return None;
            }
        }
        i = i + 1;
    }
    None
}


/// Two profiles agree on every setting that planning never touches.
pub open spec fn same_base_settings(a: ProfileView, b: ProfileView) -> bool {
    &&& a.scan_mode == b.scan_mode
    &&& a.ip_version == b.ip_version
    &&& a.quick_reconnect == b.quick_reconnect
    &&& a.lan_share == b.lan_share
    &&& a.endpoint_mode == b.endpoint_mode
    &&& a.manual_peer == b.manual_peer
    &&& a.manual_range == b.manual_range
    &&& a.keepalive == b.keepalive
    &&& a.mtu == b.mtu
    &&& a.split_mode == b.split_mode
    &&& a.split_apps == b.split_apps
}

/// `Smart` never reaches the engine: no candidate of any plan asks for it.
pub proof fn lemma_plan_never_smart(u: ProfileView, hostile: bool)
    ensures
        forall|i: int|
            0 <= i < spec_build_plan(u, hostile).len() ==> #[trigger] spec_build_plan(
                u,
                hostile,
            )[i].profile.protocol != Protocol::Smart,
{
}

/// An explicitly chosen protocol is never swapped for another one.
pub proof fn lemma_explicit_protocol_respected(u: ProfileView, hostile: bool)
    requires
        u.protocol != Protocol::Smart,
    ensures
        forall|i: int|
            0 <= i < spec_build_plan(u, hostile).len() ==> #[trigger] spec_build_plan(
                u,
                hostile,
            )[i].profile.protocol == u.protocol,
{
}

/// Every plan has at least one attempt: four for Smart Auto, and for a manual
/// protocol two when hardening changes the profile and one otherwise.
pub proof fn lemma_plan_length(u: ProfileView, hostile: bool)
    ensures
        spec_build_plan(u, hostile).len() == if u.protocol == Protocol::Smart {
            4nat
        } else if spec_harden(u) == u {
            1nat
        } else {
            2nat
        },
        spec_build_plan(u, hostile).len() >= 1,
{
}

/// No attempt may scan longer than the profile's own connect timeout, and the
/// last attempt gets the full timeout (except on a filtered network with a
/// manual protocol, where the capped plain pass moves to the end).
pub proof fn lemma_plan_timeouts(u: ProfileView, hostile: bool)
    ensures
        forall|i: int|
            0 <= i < spec_build_plan(u, hostile).len() ==> #[trigger] spec_build_plan(
                u,
                hostile,
            )[i].timeout_ms <= spec_connect_timeout_ms(u),
        !hostile || u.protocol == Protocol::Smart ==> spec_build_plan(u, hostile).last().timeout_ms
            == spec_connect_timeout_ms(u),
{
}

/// A manually chosen protocol that hardening changes gets two passes: the
/// profile as configured, capped at 75 s, and the hardened profile with the
/// full connect timeout (the hardened one first on a filtered network).
pub proof fn lemma_direct_first_pass_cap(u: ProfileView, hostile: bool)
    requires
        u.protocol != Protocol::Smart,
        spec_harden(u) != u,
    ensures
        ({
            let plan = spec_build_plan(u, hostile);
            let (a, b) = if hostile {
                (plan[1], plan[0])
            } else {
                (plan[0], plan[1])
            };
            &&& plan.len() == 2
            &&& a.profile == u
            &&& a.timeout_ms == min_u64(spec_connect_timeout_ms(u), DIRECT_FIRST_PASS_MAX_MS)
            &&& a.timeout_ms <= 75_000
            &&& b.profile == spec_harden(u)
            &&& b.timeout_ms == spec_connect_timeout_ms(u)
        }),
{
}

/// The protocols Smart Auto tries, in order: MASQUE (plain, then hardened),
/// GOOL, then WireGuard; only an IPv6-only profile leads with WireGuard
/// (plain, then hardened), then MASQUE and GOOL. On a filtered network the
/// first two steps trade places, which keeps this order of protocols.
pub proof fn lemma_smart_protocol_order(u: ProfileView, hostile: bool)
    requires
        u.protocol == Protocol::Smart,
    ensures
        ({
            let plan = spec_build_plan(u, hostile);
            &&& plan.len() == 4
            &&& u.ip_version != IpVersion::V6 ==> plan[0].profile.protocol == Protocol::Masque
                && plan[1].profile.protocol == Protocol::Masque && plan[2].profile.protocol
                == Protocol::Gool && plan[3].profile.protocol == Protocol::Wireguard
            &&& u.ip_version == IpVersion::V6 ==> plan[0].profile.protocol == Protocol::Wireguard
                && plan[1].profile.protocol == Protocol::Wireguard && plan[2].profile.protocol
                == Protocol::Masque && plan[3].profile.protocol == Protocol::Gool
        }),
{
}

/// Planning only ever changes the protocol and the anti-DPI settings.
pub proof fn lemma_plan_keeps_settings(u: ProfileView, hostile: bool)
    ensures
        forall|i: int|
            0 <= i < spec_build_plan(u, hostile).len() ==> same_base_settings(
                #[trigger] spec_build_plan(u, hostile)[i].profile,
                u,
            ),
{
}

/// Hardening twice is hardening once, and hardening leaves a profile as it
/// is exactly when it already sends noise and, for MASQUE, already uses
/// HTTP/2, fragmentation and ECH.
pub proof fn lemma_harden_idempotent(p: ProfileView)
    ensures
        spec_harden(spec_harden(p)) == spec_harden(p),
        spec_harden(p) == p <==> (p.noize != Noize::Off && (p.protocol != Protocol::Masque || (
        p.masque_http2 && p.fragment && p.ech))),
{
}

/// A hardened profile always sends noise, and a hardened MASQUE profile also
/// uses HTTP/2, fragmentation and ECH.
pub proof fn lemma_harden_effect(p: ProfileView)
    ensures
        spec_harden(p).noize != Noize::Off,
        spec_harden(p).protocol == p.protocol,
        p.protocol == Protocol::Masque ==> spec_harden(p).masque_http2 && spec_harden(p).fragment
            && spec_harden(p).ech,
        same_base_settings(spec_harden(p), p),
{
}

/// A filtered network only reorders the plan: the two leading attempts trade
/// places (the hardened one goes first) and everything else stays.
pub proof fn lemma_hostile_reorders(u: ProfileView)
    ensures
        spec_build_plan(u, true).len() == spec_build_plan(u, false).len(),
        spec_build_plan(u, false).len() == 1 ==> spec_build_plan(u, true) == spec_build_plan(
            u,
            false,
        ),
        spec_build_plan(u, false).len() >= 2 ==> {
            &&& spec_build_plan(u, true)[0] == spec_build_plan(u, false)[1]
            &&& spec_build_plan(u, true)[1] == spec_build_plan(u, false)[0]
            &&& spec_build_plan(u, true).subrange(2, spec_build_plan(u, true).len() as int)
                == spec_build_plan(u, false).subrange(2, spec_build_plan(u, false).len() as int)
        },
{
    let t = spec_build_plan(u, true);
    let f = spec_build_plan(u, false);
    assert(t.subrange(2, t.len() as int) =~= f.subrange(2, f.len() as int));
}

/// On a filtered network the first attempt is always a hardened one.
pub proof fn lemma_hostile_leads_hardened(u: ProfileView)
    ensures
        spec_build_plan(u, true)[0].profile.noize != Noize::Off,
{
}

/// The fallback order Masque, Gool, WireGuard ends after WireGuard and never
/// falls back to `Smart`.
pub proof fn lemma_fallback_chain(p: Protocol)
    ensures
        spec_next_after(p) != Some(Protocol::Smart),
        spec_next_after(p) != Some(p),
        spec_next_after(p) is Some ==> spec_next_after(spec_next_after(p)->0) != Some(p),
{
}

/// A single-protocol pick is never `Smart`, and an explicit protocol is kept.
pub proof fn lemma_pick_concrete(p: ProfileView)
    ensures
        spec_pick(p) != Protocol::Smart,
        p.protocol != Protocol::Smart ==> spec_pick(p) == p.protocol,
{
}

/// The plan summary line: `Plan ready (<n> attempt(s)): <label> → <label> …`.
pub fn plan_summary(plan: &Vec<Candidate>) -> (s: String)
    ensures
        s@ == plan_summary_text(plan_view(plan@)),
{
    let mut s = String::from_str("Plan ready (").concat(
        crate::text::decimal_string(plan.len() as u64).as_str(),
    ).concat(" attempt(s)): ");
    let ghost head = s@;
    let ghost labels = plan_labels(plan_view(plan@));
    let mut k: usize = 0;
    while k < plan.len()
        invariant
            0 <= k <= plan.len(),
            head == "Plan ready ("@ + decimal(plan.len() as nat) + " attempt(s)): "@,
            labels == plan_labels(plan_view(plan@)),
            s@ == head + joined(labels.take(k as int), " → "@),
        decreases plan.len() - k,
    {
        proof {
            lemma_joined_push(labels, " → "@, k as int);
        }
        if k > 0 {
            s = s.concat(" → ");
        }
        s = s.concat(plan[k].label.as_str());
        k = k + 1;
    }
    assert(labels.take(plan.len() as int) =~= labels);
    s
}

/// `Plan ready (<n> attempt(s)): <label> → <label> …`.
pub open spec fn plan_summary_text(plan: Seq<CandidateView>) -> Seq<char> {
    "Plan ready ("@ + decimal(plan.len()) + " attempt(s)): "@ + joined(plan_labels(plan), " → "@)
}

/// The labels of a plan's steps, in order.
pub open spec fn plan_labels(plan: Seq<CandidateView>) -> Seq<Seq<char>> {
    plan.map_values(|c: CandidateView| c.label)
}

} // verus!
