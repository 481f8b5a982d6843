//! The connection profile and the engine command line derived from it.

use vstd::prelude::*;
use crate::text::{
    ascii_lowercase, chars_of, decimal, decimal_string, string_of, trim, trim_chars,
};
use crate::state::scan_text;

verus! {

/// Which tunnel protocol the engine runs; `Smart` is resolved before launch.
#[derive(Debug, Clone, Copy, PartialEq, Eq, Structural)]
pub enum Protocol {
    Smart,
    Masque,
    Wireguard,
    Gool,
}

#[derive(Debug, Clone, Copy, PartialEq, Eq, Structural)]
pub enum ScanMode {
    Turbo,
    Balanced,
    Thorough,
    Stealth,
    Ironclad,
}

#[derive(Debug, Clone, Copy, PartialEq, Eq, Structural)]
pub enum IpVersion {
    V4,
    V6,
    Both,
}

#[derive(Debug, Clone, Copy, PartialEq, Eq, Structural)]
pub enum Noize {
    Off,
    Light,
    Firewall,
    Balanced,
    Gfw,
    Aggressive,
}

#[derive(Debug, Clone, Copy, PartialEq, Eq, Structural)]
pub enum EndpointMode {
    Auto,
    ManualPeer,
    ManualRange,
}

#[derive(Debug, Clone, Copy, PartialEq, Eq, Structural)]
pub enum SplitMode {
    Off,
    Include,
    Exclude,
}

pub const DEFAULT_MTU: u32 = 1280;

pub const MTU_PRESETS: [u32; 5] = [1280, 1380, 1420, 1500, 8500];

pub const KEEPALIVE_PRESETS: [u32; 4] = [0, 10, 25, 45];

/// Every user-facing connection setting.
#[derive(Debug, PartialEq)]
pub struct ConnectionProfile {
    pub protocol: Protocol,
    pub scan_mode: ScanMode,
    pub ip_version: IpVersion,
    pub quick_reconnect: bool,
    pub masque_http2: bool,
    /// Share the tunnel with other devices on the same network.
    pub lan_share: bool,
    pub noize: Noize,
    pub endpoint_mode: EndpointMode,
    pub manual_peer: String,
    pub manual_range: String,
    pub keepalive: u32,
    pub fragment: bool,
    pub ech: bool,
    pub mtu: u32,
    pub split_mode: SplitMode,
    /// Executable names or paths selected for split tunnelling.
    pub split_apps: Vec<String>,
}

/// The mathematical content of a [`ConnectionProfile`].
pub struct ProfileView {
    pub protocol: Protocol,
    pub scan_mode: ScanMode,
    pub ip_version: IpVersion,
    pub quick_reconnect: bool,
    pub masque_http2: bool,
    pub lan_share: bool,
    pub noize: Noize,
    pub endpoint_mode: EndpointMode,
    pub manual_peer: Seq<char>,
    pub manual_range: Seq<char>,
    pub keepalive: u32,
    pub fragment: bool,
    pub ech: bool,
    pub mtu: u32,
    pub split_mode: SplitMode,
    pub split_apps: Seq<Seq<char>>,
}

impl View for ConnectionProfile {
    type V = ProfileView;

    open spec fn view(&self) -> ProfileView {
        ProfileView {
            protocol: self.protocol,
            scan_mode: self.scan_mode,
            ip_version: self.ip_version,
            quick_reconnect: self.quick_reconnect,
            masque_http2: self.masque_http2,
            lan_share: self.lan_share,
            noize: self.noize,
            endpoint_mode: self.endpoint_mode,
            manual_peer: self.manual_peer@,
            manual_range: self.manual_range@,
            keepalive: self.keepalive,
            fragment: self.fragment,
            ech: self.ech,
            mtu: self.mtu,
            split_mode: self.split_mode,
            split_apps: self.split_apps.deep_view(),
        }
    }
}

/// The factory settings.
pub open spec fn default_profile() -> ProfileView {
    ProfileView {
        protocol: Protocol::Smart,
        scan_mode: ScanMode::Balanced,
        ip_version: IpVersion::V4,
        quick_reconnect: true,
        masque_http2: false,
        lan_share: false,
        noize: Noize::Off,
        endpoint_mode: EndpointMode::Auto,
        manual_peer: Seq::empty(),
        manual_range: Seq::empty(),
        keepalive: 0,
        fragment: false,
        ech: false,
        mtu: DEFAULT_MTU,
        split_mode: SplitMode::Off,
        split_apps: Seq::empty(),
    }
}

impl Default for ConnectionProfile {
    fn default() -> (p: Self)
        ensures
            p@ == default_profile(),
    {
        let p = ConnectionProfile {
            protocol: Protocol::Smart,
            scan_mode: ScanMode::Balanced,
            ip_version: IpVersion::V4,
            quick_reconnect: true,
            masque_http2: false,
            lan_share: false,
            noize: Noize::Off,
            endpoint_mode: EndpointMode::Auto,
            manual_peer: String::new(),
            manual_range: String::new(),
            keepalive: 0,
            fragment: false,
            ech: false,
            mtu: DEFAULT_MTU,
            split_mode: SplitMode::Off,
            split_apps: Vec::new(),
        };
        assert(p.split_apps.deep_view() =~= Seq::<Seq<char>>::empty());
        p
    }
}

impl Clone for ConnectionProfile {
    fn clone(&self) -> (p: Self)
        ensures
            p@ == self@,
    {
        let apps = clone_strings(&self.split_apps);
        ConnectionProfile {
            protocol: self.protocol,
            scan_mode: self.scan_mode,
            ip_version: self.ip_version,
            quick_reconnect: self.quick_reconnect,
            masque_http2: self.masque_http2,
            lan_share: self.lan_share,
            noize: self.noize,
            endpoint_mode: self.endpoint_mode,
            manual_peer: self.manual_peer.clone(),
            manual_range: self.manual_range.clone(),
            keepalive: self.keepalive,
            fragment: self.fragment,
            ech: self.ech,
            mtu: self.mtu,
            split_mode: self.split_mode,
            split_apps: apps,
        }
    }
}

/// A copy of a list of strings with the same contents.
pub fn clone_strings(v: &Vec<String>) -> (r: Vec<String>)
    ensures
        r.deep_view() == v.deep_view(),
{
    let mut r: Vec<String> = Vec::new();
    let mut i: usize = 0;
    while i < v.len()
        invariant
            0 <= i <= v.len(),
            r.deep_view() =~= v.deep_view().take(i as int),
        decreases v.len() - i,
    {
        let s = v[i].clone();
        push_string(&mut r, s);
        i = i + 1;
    }
    assert(v.deep_view().take(v.len() as int) =~= v.deep_view());
    r
}

/// Appends `s`, describing the effect on the list's contents.
pub fn push_string(v: &mut Vec<String>, s: String)
    ensures
        final(v).deep_view() == old(v).deep_view().push(s@),
{
    let ghost before = v.deep_view();
    let ghost sv = s@;
    v.push(s);
    assert(v.deep_view() =~= before.push(sv));
}

/// Appends every string of `w`, describing the effect on the list's contents.
pub fn append_strings(v: &mut Vec<String>, w: Vec<String>)
    ensures
        final(v).deep_view() == old(v).deep_view() + w.deep_view(),
{
    let ghost before = v.deep_view();
    let ghost wv = w.deep_view();
    let mut w = w;
    v.append(&mut w);
    assert(v.deep_view() =~= before + wv);
}

/// Whether a manual peer is configured and non-blank.
pub open spec fn spec_has_manual_peer(p: ProfileView) -> bool {
    p.endpoint_mode == EndpointMode::ManualPeer && trim(p.manual_peer).len() > 0
}

pub open spec fn protocol_flag(p: Protocol) -> Seq<Seq<char>> {
    match p {
        Protocol::Smart => seq![],
        Protocol::Masque => seq!["--masque"@],
        Protocol::Wireguard => seq!["--wg"@],
        Protocol::Gool => seq!["--gool"@],
    }
}

pub open spec fn scan_flag(m: ScanMode) -> Seq<char> {
    match m {
        ScanMode::Turbo => "--turbo"@,
        ScanMode::Balanced => "--balanced"@,
        ScanMode::Thorough => "--thorough"@,
        ScanMode::Stealth => "--stealth"@,
        ScanMode::Ironclad => "--ironclad"@,
    }
}

pub open spec fn ip_flag(v: IpVersion) -> Seq<char> {
    match v {
        IpVersion::V4 => "-4"@,
        IpVersion::V6 => "-6"@,
        IpVersion::Both => "--dual"@,
    }
}

/// Lower-case name of a noise level, as the engine expects it.
pub open spec fn noize_name(n: Noize) -> Seq<char> {
    match n {
        Noize::Off => "off"@,
        Noize::Light => "light"@,
        Noize::Firewall => "firewall"@,
        Noize::Balanced => "balanced"@,
        Noize::Gfw => "gfw"@,
        Noize::Aggressive => "aggressive"@,
    }
}

pub open spec fn scan_part(p: ProfileView) -> Seq<Seq<char>> {
    if spec_has_manual_peer(p) {
        seq![]
    } else {
        seq![scan_flag(p.scan_mode)]
    }
}

pub open spec fn reconnect_flag(quick: bool) -> Seq<char> {
    if quick {
        "--quick-reconnect"@
    } else {
        "--no-quick-reconnect"@
    }
}

pub open spec fn noize_part(p: ProfileView) -> Seq<Seq<char>> {
    if p.noize != Noize::Off {
        seq!["--noize"@, noize_name(p.noize)]
    } else {
        seq![]
    }
}

pub open spec fn peer_part(p: ProfileView) -> Seq<Seq<char>> {
    if spec_has_manual_peer(p) {
        seq!["--peer"@, trim(p.manual_peer)]
    } else {
        seq![]
    }
}

pub open spec fn hardening_part(p: ProfileView) -> Seq<Seq<char>> {
    (if p.fragment {
        seq!["--fragment"@]
    } else {
        seq![]
    }) + (if p.ech {
        seq!["--ech"@, "auto"@]
    } else {
        seq![]
    }) + (if p.keepalive > 0 {
        seq!["--keepalive"@, decimal(p.keepalive as nat)]
    } else {
        seq![]
    })
}

/// The engine's command-line arguments for a profile.
pub open spec fn spec_args(p: ProfileView) -> Seq<Seq<char>> {
    protocol_flag(p.protocol) + scan_part(p) + seq![ip_flag(p.ip_version), reconnect_flag(p.quick_reconnect)]
        + noize_part(p) + peer_part(p) + hardening_part(p)
}

/// The engine's environment variables for a profile, in key order.
pub open spec fn spec_env(p: ProfileView) -> Seq<(Seq<char>, Seq<char>)> {
    let http2 = if p.masque_http2 { "1"@ } else { "0"@ };
    let range = trim(p.manual_range);
    if p.endpoint_mode == EndpointMode::ManualRange && range.len() > 0 {
        seq![
            ("AETHER_MASQUE_CIDRS"@, range),
            ("AETHER_MASQUE_HTTP2"@, http2),
            ("AETHER_SCAN_CIDRS"@, range),
            ("AETHER_WG_CIDRS"@, range),
        ]
    } else {
        seq![("AETHER_MASQUE_HTTP2"@, http2)]
    }
}

/// How long one connection attempt may scan before it is abandoned.
pub open spec fn spec_connect_timeout_ms(p: ProfileView) -> u64 {
    if spec_has_manual_peer(p) {
        45_000
    } else {
        match p.scan_mode {
            ScanMode::Turbo => 60_000,
            ScanMode::Balanced => 150_000,
            ScanMode::Stealth => 240_000,
            ScanMode::Thorough => 300_000,
            ScanMode::Ironclad => 360_000,
        }
    }
}

fn lit(s: &str) -> (r: String)
    ensures
        r@ == s@,
{
    String::from_str(s)
}

impl ConnectionProfile {
    pub fn has_manual_peer(&self) -> (r: bool)
        ensures
            r == spec_has_manual_peer(self@),
    {
        if self.endpoint_mode == EndpointMode::ManualPeer {
            let t = trim_chars(&chars_of(self.manual_peer.as_str()));
            t.len() > 0
        } else {
            false
        }
    }

    /// The engine's command-line arguments.
    pub fn to_args(&self) -> (args: Vec<String>)
        ensures
            args.deep_view() == spec_args(self@),
    {
        let mut args = self.protocol_args();
        let scan = self.scan_args();
        append_strings(&mut args, scan);
        let ghost a2 = args.deep_view();
        let ipf = match self.ip_version {
            IpVersion::V4 => lit("-4"),
            IpVersion::V6 => lit("-6"),
            IpVersion::Both => lit("--dual"),
        };
        push_string(&mut args, ipf);
        let qr = if self.quick_reconnect {
            lit("--quick-reconnect")
        } else {
            lit("--no-quick-reconnect")
        };
        push_string(&mut args, qr);
        assert(args.deep_view() =~= a2 + seq![ip_flag(self@.ip_version), reconnect_flag(self@.quick_reconnect)]);
        let n = self.noize_args();
        append_strings(&mut args, n);
        let pa = self.peer_args();
        append_strings(&mut args, pa);
        let h = self.hardening_args();
        append_strings(&mut args, h);
        args
    }

    fn protocol_args(&self) -> (r: Vec<String>)
        ensures
            r.deep_view() == protocol_flag(self@.protocol),
    {
        let mut r: Vec<String> = Vec::new();
        match self.protocol {
            Protocol::Smart => {},
            Protocol::Masque => push_string(&mut r, lit("--masque")),
            Protocol::Wireguard => push_string(&mut r, lit("--wg")),
            Protocol::Gool => push_string(&mut r, lit("--gool")),
        }
        assert(r.deep_view() =~= protocol_flag(self@.protocol));
        r
    }

    fn scan_args(&self) -> (r: Vec<String>)
        ensures
            r.deep_view() == scan_part(self@),
    {
        let mut r: Vec<String> = Vec::new();
        if !self.has_manual_peer() {
            let f = match self.scan_mode {
                ScanMode::Turbo => lit("--turbo"),
                ScanMode::Balanced => lit("--balanced"),
                ScanMode::Thorough => lit("--thorough"),
                ScanMode::Stealth => lit("--stealth"),
                ScanMode::Ironclad => lit("--ironclad"),
            };
            push_string(&mut r, f);
        }
        assert(r.deep_view() =~= scan_part(self@));
        r
    }

    fn noize_args(&self) -> (r: Vec<String>)
        ensures
            r.deep_view() == noize_part(self@),
    {
        let mut r: Vec<String> = Vec::new();
        if self.noize != Noize::Off {
            push_string(&mut r, lit("--noize"));
            let n = match self.noize {
                Noize::Off => lit("off"),
                Noize::Light => lit("light"),
                Noize::Firewall => lit("firewall"),
                Noize::Balanced => lit("balanced"),
                Noize::Gfw => lit("gfw"),
                Noize::Aggressive => lit("aggressive"),
            };
            push_string(&mut r, n);
        }
        assert(r.deep_view() =~= noize_part(self@));
        r
    }

    fn peer_args(&self) -> (r: Vec<String>)
        ensures
            r.deep_view() == peer_part(self@),
    {
        let mut r: Vec<String> = Vec::new();
        if self.has_manual_peer() {
            push_string(&mut r, lit("--peer"));
            let t = trim_chars(&chars_of(self.manual_peer.as_str()));
            push_string(&mut r, string_of(&t));
        }
        assert(r.deep_view() =~= peer_part(self@));
        r
    }

    fn hardening_args(&self) -> (r: Vec<String>)
        ensures
            r.deep_view() == hardening_part(self@),
    {
        let ghost p = self@;
        let mut r: Vec<String> = Vec::new();
        if self.fragment {
            push_string(&mut r, lit("--fragment"));
        }
        let ghost a1 = r.deep_view();
        assert(a1 =~= (if p.fragment { seq!["--fragment"@] } else { seq![] }));
        if self.ech {
            push_string(&mut r, lit("--ech"));
            push_string(&mut r, lit("auto"));
        }
        let ghost a2 = r.deep_view();
        assert(a2 =~= a1 + (if p.ech { seq!["--ech"@, "auto"@] } else { seq![] }));
        if self.keepalive > 0 {
            push_string(&mut r, lit("--keepalive"));
            push_string(&mut r, decimal_string(self.keepalive as u64));
        }
        assert(r.deep_view() =~= a2 + (if p.keepalive > 0 {
            seq!["--keepalive"@, decimal(p.keepalive as nat)]
        } else {
            seq![]
        }));
        r
    }

    /// The engine's environment variables, in key order.
    pub fn to_env(&self) -> (env: Vec<(String, String)>)
        ensures
            env@.map_values(|kv: (String, String)| (kv.0@, kv.1@)) == spec_env(self@),
    {
        let http2 = if self.masque_http2 {
            lit("1")
        } else {
            lit("0")
        };
        let range = trim_chars(&chars_of(self.manual_range.as_str()));
        let mut env: Vec<(String, String)> = Vec::new();
        if self.endpoint_mode == EndpointMode::ManualRange && range.len() > 0 {
            env.push((lit("AETHER_MASQUE_CIDRS"), string_of(&range)));
            env.push((lit("AETHER_MASQUE_HTTP2"), http2));
            env.push((lit("AETHER_SCAN_CIDRS"), string_of(&range)));
            env.push((lit("AETHER_WG_CIDRS"), string_of(&range)));
        } else {
            env.push((lit("AETHER_MASQUE_HTTP2"), http2));
        }
        assert(env@.map_values(|kv: (String, String)| (kv.0@, kv.1@)) =~= spec_env(self@));
        env
    }

    /// How long one connection attempt may scan before it is abandoned.
    pub fn connect_timeout_ms(&self) -> (t: u64)
        ensures
            t == spec_connect_timeout_ms(self@),
    {
        if self.has_manual_peer() {
            return 45_000;
        }
        match self.scan_mode {
            ScanMode::Turbo => 60_000,
            ScanMode::Balanced => 150_000,
            ScanMode::Stealth => 240_000,
            ScanMode::Thorough => 300_000,
            ScanMode::Ironclad => 360_000,
        }
    }
}

/// The scan flag names the chosen mode: it is `--` followed by the mode's
/// name in lower case, so two different modes never give the same flag, and
/// without a manual peer the engine's arguments carry that flag.
pub proof fn lemma_scan_flag_names_mode(p: ProfileView, m1: ScanMode, m2: ScanMode)
    ensures
        scan_flag(m1) == "--"@ + ascii_lowercase(scan_text(m1)),
        m1 != m2 ==> scan_flag(m1) != scan_flag(m2),
        !spec_has_manual_peer(p) ==> spec_args(p).contains(
            "--"@ + ascii_lowercase(scan_text(p.scan_mode)),
        ),
{
    reveal_strlit("--");
    reveal_strlit("--turbo");
    reveal_strlit("--balanced");
    reveal_strlit("--thorough");
    reveal_strlit("--stealth");
    reveal_strlit("--ironclad");
    reveal_strlit("Turbo");
    reveal_strlit("Balanced");
    reveal_strlit("Thorough");
    reveal_strlit("Stealth");
    reveal_strlit("Ironclad");
    assert forall|m: ScanMode| #[trigger] scan_flag(m) == "--"@ + ascii_lowercase(scan_text(m)) by {
        assert(scan_flag(m) =~= "--"@ + ascii_lowercase(scan_text(m)));
    }
    if m1 != m2 {
        if scan_flag(m1).len() == scan_flag(m2).len() {
            assert(scan_flag(m1)[2] != scan_flag(m2)[2] || scan_flag(m1)[3] != scan_flag(m2)[3]);
        }
    }
    if !spec_has_manual_peer(p) {
        let k = protocol_flag(p.protocol).len() as int;
        assert(spec_args(p)[k] == scan_flag(p.scan_mode));
    }
}

} // verus!
