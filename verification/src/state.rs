//! The connection controller: the state machine that drives one connection
//! from "Disconnected" through the strategy ladder to "Connected" and back.
//!
//! The controller only decides. Everything that touches the machine (the engine
//! process, the proxy bridge, the system proxy, the tunnel adapter, probes,
//! threads and clocks) is requested through the returned [`Action`]s and reported
//! back through [`TickFacts`] and [`AetherController::on_launch`].

use vstd::prelude::*;
use crate::diagnostics::{IpInfo, IpInfoView, SelfTestOutcome, clone_opt_string, opt_string_view};
use crate::engine::LOCAL_SOCKS_PORT;
use crate::profile::{
    ConnectionProfile, IpVersion, Noize, ProfileView, Protocol, ScanMode, spec_connect_timeout_ms,
};
use crate::smart_auto::{
    Candidate, CandidateView, build_plan, lemma_plan_timeouts, plan_summary_text, plan_view,
    protocol_name, spec_build_plan,
};
use crate::text::{decimal, decimal_string};

verus! {

/// Automatic reconnects are capped at five attempts.
pub const MAX_RETRIES: u32 = 5;

/// Upper bound of the self-test grace window, in milliseconds.
pub const OUTBOUND_GRACE_MS: u64 = 90_000;

/// Lower bound of the self-test grace window, in milliseconds.
pub const MIN_GRACE_MS: u64 = 20_000;

/// How long a new attempt waits for the previous engine's port, in milliseconds.
pub const PORT_RELEASE_WAIT_MS: u64 = 3_000;

/// Interval between two live latency probes, in milliseconds.
pub const LATENCY_PROBE_INTERVAL_MS: u64 = 15_000;

/// Clock readings handed to the controller stay below this bound.
pub const CLOCK_LIMIT_MS: u64 = 0x4000_0000_0000_0000;

/// Log tag of the controller.
pub const TAG: &'static str = "state";

/// The eight connection states, in display order.
#[derive(Debug, Clone, Copy, PartialEq, Eq, Structural)]
pub enum ConnectionState {
    Disconnected,
    StartingEngine,
    Connecting,
    Verifying,
    Connected,
    Reconnecting,
    Disconnecting,
    Failed,
}

pub open spec fn spec_is_busy(s: ConnectionState) -> bool {
    match s {
        ConnectionState::StartingEngine | ConnectionState::Connecting | ConnectionState::Verifying
        | ConnectionState::Reconnecting | ConnectionState::Disconnecting => true,
        _ => false,
    }
}

pub open spec fn spec_is_active(s: ConnectionState) -> bool {
    spec_is_busy(s) || s == ConnectionState::Connected
}

impl ConnectionState {
    pub fn is_busy(self) -> (r: bool)
        ensures
            r == spec_is_busy(self),
    {
        match self {
            ConnectionState::StartingEngine | ConnectionState::Connecting
            | ConnectionState::Verifying | ConnectionState::Reconnecting
            | ConnectionState::Disconnecting => true,
            _ => false,
        }
    }

    pub fn is_active(self) -> (r: bool)
        ensures
            r == spec_is_active(self),
    {
        self.is_busy() || self == ConnectionState::Connected
    }
}

/// The address shown in the IP badge.
#[derive(Debug)]
pub struct IpEndpoint {
    pub ip: String,
    pub country_code: Option<String>,
    /// True for the tunnel's exit address, false for the user's own address.
    pub via_tunnel: bool,
}

/// Everything the interface shows about the connection.
#[derive(Debug)]
pub struct Snapshot {
    pub state: ConnectionState,
    pub detail: String,
    pub error: Option<String>,
    pub endpoint: Option<String>,
    pub protocol: Option<String>,
    pub latency_ms: Option<u64>,
    pub uptime_secs: u64,
    pub rx_bytes: u64,
    pub tx_bytes: u64,
    pub share_socks: Option<String>,
    pub share_http: Option<String>,
    pub ip_info: Option<IpEndpoint>,
    pub ip_loading: bool,
}

/// A request from the controller to the code that owns the machine.
#[derive(Debug)]
pub enum Action {
    /// Write a line to the diagnostics log.
    Log { level: char, tag: String, msg: String },
    /// Reset the four self-test checks to pending.
    ResetChecks,
    /// Tear the data path down: system proxy off, bridge stopped, tunnel
    /// closed, engine stopped (in that order).
    Teardown,
    /// Wait for the local SOCKS5 port to be released, then start the engine
    /// with this profile, and report the result through `on_launch`.
    LaunchEngine { profile: ConnectionProfile },
    /// Bring up the bridge, the system proxy and, when possible, the tunnel
    /// adapter for this profile.
    BringUpDataPath { profile: ConnectionProfile },
    /// Run the self-test in the background with this grace window.
    BeginVerification { grace_ms: u64 },
    /// Restart the bridge with LAN sharing on or off.
    RestartShare { lan: bool },
    /// Look the public address up in the background, directly or through the tunnel.
    LookupIp { via_tunnel: bool },
    /// Forget the shown address (a new lookup generation, nothing loading).
    ClearIp,
    /// Show the tunnel's exit address found by the self-test.
    OfferTunnelIp { ip: String, country_code: Option<String> },
    /// Start a background latency probe.
    ProbeLatency,
    /// Forget any latency sample not yet collected.
    DropLatencySample,
}

pub enum ActionView {
    Log { level: char, tag: Seq<char>, msg: Seq<char> },
    ResetChecks,
    Teardown,
    LaunchEngine { profile: ProfileView },
    BringUpDataPath { profile: ProfileView },
    BeginVerification { grace_ms: u64 },
    RestartShare { lan: bool },
    LookupIp { via_tunnel: bool },
    ClearIp,
    OfferTunnelIp { ip: Seq<char>, country_code: Option<Seq<char>> },
    ProbeLatency,
    DropLatencySample,
}

impl View for Action {
    type V = ActionView;

    open spec fn view(&self) -> ActionView {
        match self {
            Action::Log { level, tag, msg } => ActionView::Log {
                level: *level,
                tag: tag@,
                msg: msg@,
            },
            Action::ResetChecks => ActionView::ResetChecks,
            Action::Teardown => ActionView::Teardown,
            Action::LaunchEngine { profile } => ActionView::LaunchEngine { profile: profile@ },
            Action::BringUpDataPath { profile } => ActionView::BringUpDataPath { profile: profile@ },
            Action::BeginVerification { grace_ms } => ActionView::BeginVerification {
                grace_ms: *grace_ms,
            },
            Action::RestartShare { lan } => ActionView::RestartShare { lan: *lan },
            Action::LookupIp { via_tunnel } => ActionView::LookupIp { via_tunnel: *via_tunnel },
            Action::ClearIp => ActionView::ClearIp,
            Action::OfferTunnelIp { ip, country_code } => ActionView::OfferTunnelIp {
                ip: ip@,
                country_code: opt_string_view(*country_code),
            },
            Action::ProbeLatency => ActionView::ProbeLatency,
            Action::DropLatencySample => ActionView::DropLatencySample,
        }
    }
}

pub open spec fn actions_view(v: Seq<Action>) -> Seq<ActionView> {
    v.map_values(|a: Action| a@)
}

/// What the machine reports to one `tick`.
pub struct TickFacts {
    /// Whether the engine process is still running.
    pub engine_alive: bool,
    /// Whether the engine's SOCKS5 port accepts connections (probed only when
    /// [`AetherController::needs_socks_probe`] asks for it).
    pub socks_ready: bool,
    /// The self-test outcome, collected only when
    /// [`AetherController::awaits_verification`] asks for it.
    pub verify_outcome: Option<SelfTestOutcome>,
    /// The newest latency sample, collected only while connected.
    pub latency_sample: Option<u64>,
}

pub struct OutcomeView {
    pub ok: bool,
    pub exit: Option<IpInfoView>,
    pub latency_ms: Option<u64>,
}

pub open spec fn outcome_view(o: SelfTestOutcome) -> OutcomeView {
    OutcomeView {
        ok: o.ok,
        exit: match o.exit {
            Some(e) => Some(e@),
            None => None,
        },
        latency_ms: o.latency_ms,
    }
}

pub struct FactsView {
    pub engine_alive: bool,
    pub socks_ready: bool,
    pub verify_outcome: Option<OutcomeView>,
    pub latency_sample: Option<u64>,
}

impl View for TickFacts {
    type V = FactsView;

    open spec fn view(&self) -> FactsView {
        FactsView {
            engine_alive: self.engine_alive,
            socks_ready: self.socks_ready,
            verify_outcome: match self.verify_outcome {
                Some(o) => Some(outcome_view(o)),
                None => None,
            },
            latency_sample: self.latency_sample,
        }
    }
}

/// The controller's state.
pub struct ControllerView {
    pub profile: ProfileView,
    pub state: ConnectionState,
    pub detail: Seq<char>,
    pub error: Option<Seq<char>>,
    pub endpoint: Option<Seq<char>>,
    pub effective_protocol: Option<Protocol>,
    pub latency_ms: Option<u64>,
    pub connected_at: Option<u64>,
    pub plan: Seq<CandidateView>,
    pub plan_index: int,
    pub attempts: u32,
    pub deadline: Option<u64>,
    pub reconnect_at: Option<u64>,
    pub verifying: bool,
    pub latency_probe_at: Option<u64>,
}

/// The connection controller.
pub struct AetherController {
    profile: ConnectionProfile,
    state: ConnectionState,
    detail: String,
    error: Option<String>,
    endpoint: Option<String>,
    effective_protocol: Option<Protocol>,
    latency_ms: Option<u64>,
    connected_at: Option<u64>,
    plan: Vec<Candidate>,
    plan_index: usize,
    attempts: u32,
    deadline: Option<u64>,
    reconnect_at: Option<u64>,
    verifying: bool,
    latency_probe_at: Option<u64>,
}

impl View for AetherController {
    type V = ControllerView;

    closed spec fn view(&self) -> ControllerView {
        ControllerView {
            profile: self.profile@,
            state: self.state,
            detail: self.detail@,
            error: opt_string_view(self.error),
            endpoint: opt_string_view(self.endpoint),
            effective_protocol: self.effective_protocol,
            latency_ms: self.latency_ms,
            connected_at: self.connected_at,
            plan: plan_view(self.plan@),
            plan_index: self.plan_index as int,
            attempts: self.attempts,
            deadline: self.deadline,
            reconnect_at: self.reconnect_at,
            verifying: self.verifying,
            latency_probe_at: self.latency_probe_at,
        }
    }
}

/// The longest any single attempt may scan.
pub open spec fn max_attempt_ms() -> u64 {
    360_000
}

/// States in which a ladder step is current.
pub open spec fn on_ladder(s: ConnectionState) -> bool {
    s == ConnectionState::Connecting || s == ConnectionState::Verifying || s
        == ConnectionState::Connected || s == ConnectionState::Reconnecting
}

/// The controller's invariant.
pub open spec fn wf(c: ControllerView) -> bool {
    &&& 0 <= c.plan_index <= c.plan.len()
    &&& on_ladder(c.state) ==> c.plan_index < c.plan.len()
    &&& c.plan.len() < 1000
    &&& forall|i: int| 0 <= i < c.plan.len() ==> #[trigger] c.plan[i].timeout_ms <= max_attempt_ms()
    &&& c.attempts <= MAX_RETRIES
    &&& (c.state == ConnectionState::Failed) == (c.error is Some)
    &&& c.verifying ==> c.state == ConnectionState::Verifying
    &&& c.state == ConnectionState::Connected ==> c.attempts == 0
}

/// The controller waits for the result of the engine launch it requested.
pub open spec fn launching(c: ControllerView) -> bool {
    &&& 0 <= c.plan_index < c.plan.len()
    &&& spec_is_busy(c.state)
    &&& !c.verifying
}

/// An engine launch is requested only as the very last effect.
pub open spec fn launch_last(e: Seq<ActionView>) -> bool {
    forall|i: int| 0 <= i < e.len() - 1 ==> !(#[trigger] e[i] is LaunchEngine)
}

pub open spec fn ends_with_launch(e: Seq<ActionView>) -> bool {
    e.len() > 0 && e.last() is LaunchEngine
}

pub open spec fn phase_effects(prev: ConnectionState, next: ConnectionState) -> Seq<ActionView> {
    if prev == next {
        seq![]
    } else {
        match next {
            ConnectionState::Connected => seq![],
            ConnectionState::Disconnected | ConnectionState::Failed => seq![
                ActionView::LookupIp { via_tunnel: false },
            ],
            _ => seq![ActionView::ClearIp],
        }
    }
}

pub open spec fn with_state(c: ControllerView, s: ConnectionState, detail: Seq<char>) -> ControllerView {
    ControllerView { state: s, detail, ..c }
}

pub open spec fn log_act(level: char, tag: Seq<char>, msg: Seq<char>) -> ActionView {
    ActionView::Log { level, tag, msg }
}

/// The name a state is logged under.
pub open spec fn state_text(s: ConnectionState) -> Seq<char> {
    match s {
        ConnectionState::Disconnected => "Disconnected"@,
        ConnectionState::StartingEngine => "StartingEngine"@,
        ConnectionState::Connecting => "Connecting"@,
        ConnectionState::Verifying => "Verifying"@,
        ConnectionState::Connected => "Connected"@,
        ConnectionState::Reconnecting => "Reconnecting"@,
        ConnectionState::Disconnecting => "Disconnecting"@,
        ConnectionState::Failed => "Failed"@,
    }
}

pub open spec fn protocol_text(p: Protocol) -> Seq<char> {
    match p {
        Protocol::Smart => "Smart"@,
        Protocol::Masque => "Masque"@,
        Protocol::Wireguard => "Wireguard"@,
        Protocol::Gool => "Gool"@,
    }
}

pub open spec fn scan_text(m: ScanMode) -> Seq<char> {
    match m {
        ScanMode::Turbo => "Turbo"@,
        ScanMode::Balanced => "Balanced"@,
        ScanMode::Thorough => "Thorough"@,
        ScanMode::Stealth => "Stealth"@,
        ScanMode::Ironclad => "Ironclad"@,
    }
}

pub open spec fn ip_version_text(v: IpVersion) -> Seq<char> {
    match v {
        IpVersion::V4 => "V4"@,
        IpVersion::V6 => "V6"@,
        IpVersion::Both => "Both"@,
    }
}

/// Entering state `s` with `detail`: the state line, then what the address
/// badge does on the change of phase.
pub open spec fn spec_enter(prev: ConnectionState, s: ConnectionState, detail: Seq<char>) -> Seq<
    ActionView,
> {
    seq![log_act('I', TAG@, state_text(s) + " "@ + detail)] + phase_effects(prev, s)
}

pub open spec fn spec_fail(c: ControllerView, why: Seq<char>) -> (ControllerView, Seq<ActionView>) {
    let c1 = ControllerView {
        error: Some(why),
        connected_at: None,
        deadline: None,
        reconnect_at: None,
        verifying: false,
        ..c
    };
    (
        with_state(c1, ConnectionState::Failed, "Connection failed"@),
        seq![log_act('E', TAG@, why), ActionView::Teardown] + spec_enter(
            c.state,
            ConnectionState::Failed,
            "Connection failed"@,
        ),
    )
}

pub open spec fn attempt_message(c: ControllerView) -> Seq<char> {
    "Attempt "@ + decimal((c.plan_index + 1) as nat) + "/"@ + decimal(c.plan.len()) + " → "@
        + c.plan[c.plan_index].label
}

pub open spec fn spec_start_candidate(c: ControllerView) -> (ControllerView, Seq<ActionView>) {
    let cand = c.plan[c.plan_index];
    (
        ControllerView { effective_protocol: Some(cand.profile.protocol), ..c },
        seq![
            log_act('I', TAG@, attempt_message(c)),
            ActionView::LaunchEngine { profile: cand.profile },
        ],
    )
}

pub open spec fn exhausted_message(p: ProfileView) -> Seq<char> {
    if p.protocol == Protocol::Smart {
        "Smart Auto tried every strategy and none passed the self-test on this network."@
    } else {
        "This protocol could not establish a working tunnel on this network, even with anti-DPI hardening. Try Smart Auto or another protocol."@
    }
}

/// A failed step (for the reason `why`): tear it down and start the next
/// one, or fail when none is left.
pub open spec fn spec_advance(c: ControllerView, why: Seq<char>) -> (ControllerView, Seq<ActionView>) {
    let c1 = ControllerView { verifying: false, plan_index: c.plan_index + 1, ..c };
    let pre = seq![
        log_act('W', TAG@, why + " — tearing down this attempt."@),
        ActionView::Teardown,
        ActionView::ResetChecks,
    ];
    if c1.plan_index < c1.plan.len() {
        let r = spec_start_candidate(c1);
        (r.0, pre + r.1)
    } else {
        let r = spec_fail(c1, exhausted_message(c.profile));
        (r.0, pre + r.1)
    }
}

pub open spec fn waiting_message(timeout_ms: u64) -> Seq<char> {
    "Waiting for SOCKS5 on 127.0.0.1:"@ + decimal(LOCAL_SOCKS_PORT as nat) + "… (timeout="@
        + decimal((timeout_ms / 1000) as nat) + "s)"@
}

/// The engine of the current step started (`ok`) or could not start (with `why`).
pub open spec fn spec_on_launch(c: ControllerView, now: u64, ok: bool, why: Seq<char>) -> (
    ControllerView,
    Seq<ActionView>,
) {
    if ok {
        let t = c.plan[c.plan_index].timeout_ms;
        let c1 = ControllerView { deadline: Some((now + t) as u64), ..c };
        (
            with_state(c1, ConnectionState::Connecting, "Connecting…"@),
            spec_enter(c.state, ConnectionState::Connecting, "Connecting…"@) + seq![
                log_act('I', TAG@, waiting_message(t)),
            ],
        )
    } else {
        spec_fail(c, why)
    }
}

pub open spec fn connect_message(p: ProfileView) -> Seq<char> {
    "Connect requested — protocol="@ + protocol_text(p.protocol) + " scan="@ + scan_text(
        p.scan_mode,
    ) + " ip="@ + ip_version_text(p.ip_version)
}

/// The log lines of planning a connection.
pub open spec fn planning_notes(p: ProfileView, hostile: bool) -> Seq<ActionView> {
    seq![log_act('I', TAG@, connect_message(p))] + (if hostile {
        seq![
            log_act(
                'W',
                "auto"@,
                "Network fingerprint: this network looks filtered - anti-DPI attempts run first."@,
            ),
        ]
    } else {
        seq![]
    }) + (if p.protocol == Protocol::Smart {
        seq![log_act('I', "auto"@, "Smart Auto: building the strategy ladder…"@)]
    } else {
        seq![]
    }) + seq![log_act('I', "auto"@, plan_summary_text(spec_build_plan(p, hostile)))]
}

pub open spec fn spec_connect(c: ControllerView, hostile: bool) -> (ControllerView, Seq<ActionView>) {
    let c1 = with_state(
        ControllerView { error: None, attempts: 0, ..c },
        ConnectionState::StartingEngine,
        "Starting engine…"@,
    );
    let c2 = ControllerView { plan: spec_build_plan(c.profile, hostile), plan_index: 0, ..c1 };
    let r = spec_start_candidate(c2);
    (
        r.0,
        seq![ActionView::ResetChecks] + spec_enter(
            c.state,
            ConnectionState::StartingEngine,
            "Starting engine…"@,
        ) + planning_notes(c.profile, hostile) + r.1,
    )
}

pub open spec fn spec_disconnect(c: ControllerView) -> (ControllerView, Seq<ActionView>) {
    let c1 = ControllerView {
        latency_probe_at: None,
        connected_at: None,
        endpoint: None,
        latency_ms: None,
        effective_protocol: None,
        deadline: None,
        reconnect_at: None,
        verifying: false,
        plan: Seq::empty(),
        plan_index: 0,
        ..c
    };
    (
        with_state(c1, ConnectionState::Disconnected, Seq::empty()),
        spec_enter(c.state, ConnectionState::Disconnecting, "Disconnecting…"@) + seq![
            ActionView::Teardown,
            ActionView::ResetChecks,
            ActionView::DropLatencySample,
        ] + spec_enter(ConnectionState::Disconnecting, ConnectionState::Disconnected, Seq::empty()),
    )
}

/// The connect button: disconnect an active connection, otherwise connect.
pub open spec fn spec_toggle(c: ControllerView, hostile: bool) -> (ControllerView, Seq<ActionView>) {
    if spec_is_active(c.state) {
        spec_disconnect(c)
    } else {
        spec_connect(c, hostile)
    }
}

pub open spec fn clamp_grace(remaining: u64) -> u64 {
    if remaining < MIN_GRACE_MS {
        MIN_GRACE_MS
    } else if remaining > OUTBOUND_GRACE_MS {
        OUTBOUND_GRACE_MS
    } else {
        remaining
    }
}

/// The self-test grace window: what is left of the step's deadline, clamped.
pub open spec fn spec_grace(c: ControllerView, now: u64) -> u64 {
    match c.deadline {
        Some(d) => clamp_grace(if d > now { (d - now) as u64 } else { 0 }),
        None => OUTBOUND_GRACE_MS,
    }
}

/// The SOCKS5 port is up: bring up the data path and start the self-test.
pub open spec fn spec_port_up(c: ControllerView, now: u64) -> (ControllerView, Seq<ActionView>) {
    let c1 = with_state(
        ControllerView { verifying: true, ..c },
        ConnectionState::Verifying,
        "Verifying…"@,
    );
    (
        c1,
        seq![
            log_act('I', TAG@, "SOCKS5 port is up — bringing up the data path."@),
            ActionView::BringUpDataPath { profile: c.plan[c.plan_index].profile },
            ActionView::BeginVerification { grace_ms: spec_grace(c, now) },
        ] + spec_enter(c.state, ConnectionState::Verifying, "Verifying…"@),
    )
}

pub open spec fn endpoint_text(e: IpInfoView) -> Seq<char> {
    match e.country_code {
        Some(cc) => e.ip + " · "@ + cc,
        None => e.ip,
    }
}

/// The self-test passed: the connection is up.
pub open spec fn spec_verified(c: ControllerView, now: u64, o: OutcomeView) -> (
    ControllerView,
    Seq<ActionView>,
) {
    let c1 = ControllerView {
        verifying: false,
        endpoint: match o.exit {
            Some(e) => Some(endpoint_text(e)),
            None => c.endpoint,
        },
        latency_ms: o.latency_ms,
        connected_at: Some(now),
        attempts: 0,
        ..c
    };
    let offer = match o.exit {
        Some(e) => seq![ActionView::OfferTunnelIp { ip: e.ip, country_code: e.country_code }],
        None => seq![],
    };
    let lookup = match o.exit {
        Some(_) => seq![],
        None => seq![ActionView::LookupIp { via_tunnel: true }],
    };
    (
        with_state(c1, ConnectionState::Connected, Seq::empty()),
        offer + spec_enter(c.state, ConnectionState::Connected, Seq::empty()) + seq![
            log_act('I', TAG@, "All checks passed — tunnel is ready."@),
        ] + lookup,
    )
}

pub open spec fn backoff_ms(attempts: u32) -> u64 {
    if attempts == 0 {
        2_000
    } else if attempts == 1 {
        5_000
    } else {
        10_000
    }
}

pub open spec fn restart_detail(attempts: u32) -> Seq<char> {
    "Attempt "@ + crate::text::decimal((attempts + 1) as nat) + " of "@ + crate::text::decimal(
        MAX_RETRIES as nat,
    )
}

/// The engine died while connected: schedule a restart, or give up.
pub open spec fn spec_engine_died(c: ControllerView, now: u64) -> (ControllerView, Seq<ActionView>) {
    if c.attempts >= MAX_RETRIES {
        spec_fail(c, "The engine keeps dying — giving up after repeated restarts."@)
    } else {
        let c1 = ControllerView {
            attempts: (c.attempts + 1) as u32,
            connected_at: None,
            reconnect_at: Some((now + backoff_ms(c.attempts)) as u64),
            ..c
        };
        (
            with_state(c1, ConnectionState::Reconnecting, restart_detail(c.attempts)),
            seq![
                log_act(
                    'W',
                    TAG@,
                    "Engine died while connected — restarting in "@ + decimal(
                        (backoff_ms(c.attempts) / 1000) as nat,
                    ) + "s."@,
                ),
            ] + spec_enter(c.state, ConnectionState::Reconnecting, restart_detail(c.attempts)),
        )
    }
}

/// The periodic step while connected.
pub open spec fn spec_connected_tick(c: ControllerView, now: u64, f: FactsView) -> (
    ControllerView,
    Seq<ActionView>,
) {
    let c1 = match f.latency_sample {
        Some(ms) => ControllerView { latency_ms: Some(ms), ..c },
        None => c,
    };
    let due = match c.latency_probe_at {
        Some(t) => now >= t,
        None => true,
    };
    let c2 = if due {
        ControllerView { latency_probe_at: Some((now + LATENCY_PROBE_INTERVAL_MS) as u64), ..c1 }
    } else {
        c1
    };
    let e1 = if due {
        seq![ActionView::ProbeLatency]
    } else {
        seq![]
    };
    if f.engine_alive {
        (c2, e1)
    } else {
        let r = spec_engine_died(c2, now);
        (r.0, e1 + r.1)
    }
}

/// One supervision step.
pub open spec fn spec_tick(c: ControllerView, now: u64, f: FactsView) -> (
    ControllerView,
    Seq<ActionView>,
) {
    match c.state {
        ConnectionState::Connecting => if !f.engine_alive {
            spec_advance(c, "Engine exited before it opened the SOCKS5 port"@)
        } else if f.socks_ready {
            spec_port_up(c, now)
        } else if (match c.deadline {
            Some(d) => now > d,
            None => false,
        }) {
            spec_advance(c, "Engine still scanning — the SOCKS5 port never opened in time"@)
        } else {
            (c, seq![])
        },
        ConnectionState::Verifying => match (if c.verifying {
            f.verify_outcome
        } else {
            None
        }) {
            Some(o) => if o.ok {
                spec_verified(c, now, o)
            } else {
                spec_advance(c, "Tunnel started, but the end-to-end self-test failed"@)
            },
            None => if !f.engine_alive {
                spec_advance(c, "The engine stopped during verification"@)
            } else {
                (c, seq![])
            },
        },
        ConnectionState::Connected => spec_connected_tick(c, now, f),
        ConnectionState::Reconnecting => match c.reconnect_at {
            Some(at) => if now >= at {
                let r = spec_start_candidate(ControllerView { reconnect_at: None, ..c });
                (r.0, seq![ActionView::Teardown] + r.1)
            } else {
                (c, seq![])
            },
            None => (c, seq![]),
        },
        _ => (c, seq![]),
    }
}

fn emit(acts: &mut Vec<Action>, a: Action)
    ensures
        actions_view(final(acts)@) == actions_view(old(acts)@).push(a@),
{
    let ghost before = actions_view(acts@);
    let ghost av = a@;
    acts.push(a);
    assert(actions_view(acts@) =~= before.push(av));
}

fn log_to(acts: &mut Vec<Action>, level: char, tag: &str, msg: String)
    ensures
        actions_view(final(acts)@) == actions_view(old(acts)@).push(log_act(level, tag@, msg@)),
{
    emit(acts, Action::Log { level, tag: String::from_str(tag), msg });
}

fn state_name(s: ConnectionState) -> (r: &'static str)
    ensures
        r@ == state_text(s),
{
    match s {
        ConnectionState::Disconnected => "Disconnected",
        ConnectionState::StartingEngine => "StartingEngine",
        ConnectionState::Connecting => "Connecting",
        ConnectionState::Verifying => "Verifying",
        ConnectionState::Connected => "Connected",
        ConnectionState::Reconnecting => "Reconnecting",
        ConnectionState::Disconnecting => "Disconnecting",
        ConnectionState::Failed => "Failed",
    }
}

fn protocol_debug(p: Protocol) -> (r: &'static str)
    ensures
        r@ == protocol_text(p),
{
    match p {
        Protocol::Smart => "Smart",
        Protocol::Masque => "Masque",
        Protocol::Wireguard => "Wireguard",
        Protocol::Gool => "Gool",
    }
}

fn scan_debug(m: ScanMode) -> (r: &'static str)
    ensures
        r@ == scan_text(m),
{
    match m {
        ScanMode::Turbo => "Turbo",
        ScanMode::Balanced => "Balanced",
        ScanMode::Thorough => "Thorough",
        ScanMode::Stealth => "Stealth",
        ScanMode::Ironclad => "Ironclad",
    }
}

fn ip_debug(v: IpVersion) -> (r: &'static str)
    ensures
        r@ == ip_version_text(v),
{
    match v {
        IpVersion::V4 => "V4",
        IpVersion::V6 => "V6",
        IpVersion::Both => "Both",
    }
}

fn upper_protocol_name(p: Protocol) -> (s: String)
    ensures
        s@ == protocol_name(p),
{
    match p {
        Protocol::Smart => String::from_str("SMART"),
        Protocol::Masque => String::from_str("MASQUE"),
        Protocol::Wireguard => String::from_str("WIREGUARD"),
        Protocol::Gool => String::from_str("GOOL"),
    }
}

proof fn lemma_timeout_bound(p: ProfileView)
    ensures
        spec_connect_timeout_ms(p) <= max_attempt_ms(),
{
}

impl AetherController {
    /// A disconnected controller for the stored profile, and what to do at
    /// start-up: clear a system proxy left over by a crash, and show the
    /// user's own address.
    pub fn new(profile: ConnectionProfile) -> (r: (AetherController, Vec<Action>))
        ensures
            r.0@.profile == profile@,
            r.0@.state == ConnectionState::Disconnected,
            r.0@.detail == Seq::<char>::empty(),
            r.0@.error is None,
            r.0@.endpoint is None,
            r.0@.effective_protocol is None,
            r.0@.latency_ms is None,
            r.0@.connected_at is None,
            r.0@.plan.len() == 0,
            r.0@.plan_index == 0,
            r.0@.attempts == 0,
            r.0@.deadline is None,
            r.0@.reconnect_at is None,
            !r.0@.verifying,
            r.0@.latency_probe_at is None,
            wf(r.0@),
            actions_view(r.1@) == seq![
                ActionView::Teardown,
                ActionView::LookupIp { via_tunnel: false },
            ],
    {
        let c = AetherController {
            profile,
            state: ConnectionState::Disconnected,
            detail: String::new(),
            error: None,
            endpoint: None,
            effective_protocol: None,
            latency_ms: None,
            connected_at: None,
            plan: Vec::new(),
            plan_index: 0,
            attempts: 0,
            deadline: None,
            reconnect_at: None,
            verifying: false,
            latency_probe_at: None,
        };
        let mut acts: Vec<Action> = Vec::new();
        assert(actions_view(acts@) =~= Seq::<ActionView>::empty());
        emit(&mut acts, Action::Teardown);
        emit(&mut acts, Action::LookupIp { via_tunnel: false });
        assert(plan_view(c.plan@) =~= Seq::<CandidateView>::empty());
        assert(actions_view(acts@) =~= seq![
            ActionView::Teardown,
            ActionView::LookupIp { via_tunnel: false },
        ]);
        (c, acts)
    }

    /// The current profile.
    pub fn profile(&self) -> (p: ConnectionProfile)
        ensures
            p@ == self@.profile,
    {
        self.profile.clone()
    }

    /// The current connection state.
    pub fn state(&self) -> (s: ConnectionState)
        ensures
            s == self@.state,
    {
        self.state
    }

    /// Installs a profile that has already been saved; flipping LAN sharing
    /// while a connection is active restarts the bridge right away.
    pub fn set_profile(&mut self, profile: ConnectionProfile) -> (acts: Vec<Action>)
        requires
            wf(old(self)@),
        ensures
            wf(final(self)@),
            final(self)@ == (ControllerView { profile: profile@, ..old(self)@ }),
            actions_view(acts@) == (if profile.lan_share != old(self)@.profile.lan_share
                && spec_is_active(old(self)@.state) {
                seq![ActionView::RestartShare { lan: profile.lan_share }]
            } else {
                seq![]
            }),
    {
        let lan_toggled = profile.lan_share != self.profile.lan_share;
        self.profile = profile;
        let mut acts: Vec<Action> = Vec::new();
        assert(actions_view(acts@) =~= Seq::<ActionView>::empty());
        if lan_toggled && self.state.is_active() {
            emit(&mut acts, Action::RestartShare { lan: self.profile.lan_share });
            assert(actions_view(acts@) =~= seq![ActionView::RestartShare { lan: self.profile.lan_share }]);
        }
        acts
    }

    fn set_state(&mut self, acts: &mut Vec<Action>, s: ConnectionState, detail: String)
        ensures
            final(self)@ == with_state(old(self)@, s, detail@),
            actions_view(final(acts)@) == actions_view(old(acts)@) + spec_enter(
                old(self)@.state,
                s,
                detail@,
            ),
    {
        let ghost a0 = actions_view(acts@);
        let prev = self.state;
        let msg = String::from_str(state_name(s)).concat(" ").concat(detail.as_str());
        self.state = s;
        self.detail = detail;
        log_to(acts, 'I', TAG, msg);
        if prev != s {
            match s {
                ConnectionState::Connected => {},
                ConnectionState::Disconnected | ConnectionState::Failed => {
                    emit(acts, Action::LookupIp { via_tunnel: false });
                },
                _ => {
                    emit(acts, Action::ClearIp);
                },
            }
        }
        assert(actions_view(acts@) =~= a0 + spec_enter(prev, s, self.detail@));
    }

    fn fail(&mut self, acts: &mut Vec<Action>, why: String)
        ensures
            final(self)@ == spec_fail(old(self)@, why@).0,
            actions_view(final(acts)@) == actions_view(old(acts)@) + spec_fail(old(self)@, why@).1,
    {
        let ghost a0 = actions_view(acts@);
        let ghost prev = self.state;
        log_to(acts, 'E', TAG, why.clone());
        emit(acts, Action::Teardown);
        self.error = Some(why);
        self.connected_at = None;
        self.deadline = None;
        self.reconnect_at = None;
        self.verifying = false;
        let ghost a1 = actions_view(acts@);
        self.set_state(acts, ConnectionState::Failed, String::from_str("Connection failed"));
        assert(actions_view(acts@) =~= a0 + spec_fail(old(self)@, why@).1);
    }

    fn start_candidate(&mut self, acts: &mut Vec<Action>)
        requires
            0 <= old(self).plan_index < old(self).plan.len() < 1000,
        ensures
            final(self)@ == spec_start_candidate(old(self)@).0,
            actions_view(final(acts)@) == actions_view(old(acts)@) + spec_start_candidate(
                old(self)@,
            ).1,
    {
        let ghost a0 = actions_view(acts@);
        let i = self.plan_index;
        let msg = String::from_str("Attempt ").concat(decimal_string((i + 1) as u64).as_str()).concat(
            "/",
        ).concat(decimal_string(self.plan.len() as u64).as_str()).concat(" → ").concat(
            self.plan[i].label.as_str(),
        );
        assert(plan_view(self.plan@)[i as int] == self.plan@[i as int]@);
        assert(msg@ == attempt_message(self@));
        log_to(acts, 'I', TAG, msg);
        let profile = self.plan[i].profile.clone();
        self.effective_protocol = Some(profile.protocol);
        emit(acts, Action::LaunchEngine { profile });
        assert(actions_view(acts@) =~= a0 + spec_start_candidate(old(self)@).1);
    }

    fn advance_or_fail(&mut self, acts: &mut Vec<Action>, why: &str)
        requires
            0 <= old(self).plan_index < old(self).plan.len() < 1000,
        ensures
            final(self)@ == spec_advance(old(self)@, why@).0,
            actions_view(final(acts)@) == actions_view(old(acts)@) + spec_advance(
                old(self)@,
                why@,
            ).1,
    {
        let ghost a0 = actions_view(acts@);
        log_to(acts, 'W', TAG, String::from_str(why).concat(" — tearing down this attempt."));
        emit(acts, Action::Teardown);
        self.verifying = false;
        emit(acts, Action::ResetChecks);
        self.plan_index = self.plan_index + 1;
        let ghost a1 = actions_view(acts@);
        assert(a1 =~= a0 + seq![
            log_act('W', TAG@, why@ + " — tearing down this attempt."@),
            ActionView::Teardown,
            ActionView::ResetChecks,
        ]);
        if self.plan_index < self.plan.len() {
            self.start_candidate(acts);
        } else if self.profile.protocol == Protocol::Smart {
            self.fail(
                acts,
                String::from_str(
                    "Smart Auto tried every strategy and none passed the self-test on this network.",
                ),
            );
        } else {
            self.fail(
                acts,
                String::from_str(
                    "This protocol could not establish a working tunnel on this network, even with anti-DPI hardening. Try Smart Auto or another protocol.",
                ),
            );
        }
        assert(actions_view(acts@) =~= a0 + spec_advance(old(self)@, why@).1);
    }
}

impl AetherController {
    /// Whether the connect button would start a connection (so the network
    /// fingerprint has to be taken first).
    pub fn toggle_connects(&self) -> (r: bool)
        ensures
            r == !spec_is_active(self@.state),
    {
        !self.state.is_active()
    }

    /// Whether this tick needs to know if the engine's SOCKS5 port is open.
    pub fn needs_socks_probe(&self, engine_alive: bool) -> (r: bool)
        ensures
            r == (self@.state == ConnectionState::Connecting && engine_alive),
    {
        self.state == ConnectionState::Connecting && engine_alive
    }

    /// Whether this tick collects the self-test outcome.
    pub fn awaits_verification(&self) -> (r: bool)
        ensures
            r == (self@.state == ConnectionState::Verifying && self@.verifying),
    {
        self.state == ConnectionState::Verifying && self.verifying
    }

    /// Whether this tick collects the newest latency sample.
    pub fn collects_latency(&self) -> (r: bool)
        ensures
            r == (self@.state == ConnectionState::Connected),
    {
        self.state == ConnectionState::Connected
    }

    /// The engine of the current step was started (`Ok`) or could not be started.
    pub fn on_launch(&mut self, now: u64, result: Result<(), String>) -> (acts: Vec<Action>)
        requires
            wf(old(self)@),
            launching(old(self)@),
            now < CLOCK_LIMIT_MS,
        ensures
            wf(final(self)@),
            (final(self)@, actions_view(acts@)) == spec_on_launch(
                old(self)@,
                now,
                result is Ok,
                match result {
                    Ok(_) => Seq::<char>::empty(),
                    Err(m) => m@,
                },
            ),
            final(self)@.state == ConnectionState::Connecting || final(self)@.state
                == ConnectionState::Failed,
    {
        let mut acts: Vec<Action> = Vec::new();
        assert(actions_view(acts@) =~= Seq::<ActionView>::empty());
        match result {
            Ok(()) => {
                let t = self.plan[self.plan_index].timeout_ms;
                assert(plan_view(self.plan@)[self.plan_index as int].timeout_ms == t);
                self.deadline = Some(now + t);
                self.set_state(&mut acts, ConnectionState::Connecting, String::from_str("Connecting…"));
                let msg = String::from_str("Waiting for SOCKS5 on 127.0.0.1:").concat(
                    decimal_string(LOCAL_SOCKS_PORT as u64).as_str(),
                ).concat("… (timeout=").concat(decimal_string(t / 1000).as_str()).concat("s)");
                let ghost a1 = actions_view(acts@);
                log_to(&mut acts, 'I', TAG, msg);
                assert(actions_view(acts@) =~= spec_on_launch(old(self)@, now, true, Seq::empty()).1);
            },
            Err(why) => {
                self.fail(&mut acts, why);
                assert(actions_view(acts@) =~= spec_fail(old(self)@, why@).1);
            },
        }
        acts
    }

    fn connect(&mut self, acts: &mut Vec<Action>, hostile: bool)
        requires
            wf(old(self)@),
            !spec_is_active(old(self)@.state),
        ensures
            final(self)@ == spec_connect(old(self)@, hostile).0,
            actions_view(final(acts)@) == actions_view(old(acts)@) + spec_connect(
                old(self)@,
                hostile,
            ).1,
    {
        let ghost a0 = actions_view(acts@);
        self.error = None;
        self.attempts = 0;
        emit(acts, Action::ResetChecks);
        self.set_state(acts, ConnectionState::StartingEngine, String::from_str("Starting engine…"));
        let ghost a1 = actions_view(acts@);
        let msg = String::from_str("Connect requested — protocol=").concat(
            protocol_debug(self.profile.protocol),
        ).concat(" scan=").concat(scan_debug(self.profile.scan_mode)).concat(" ip=").concat(
            ip_debug(self.profile.ip_version),
        );
        log_to(acts, 'I', TAG, msg);
        if hostile {
            log_to(
                acts,
                'W',
                "auto",
                String::from_str(
                    "Network fingerprint: this network looks filtered - anti-DPI attempts run first.",
                ),
            );
        }
        if self.profile.protocol == Protocol::Smart {
            log_to(acts, 'I', "auto", String::from_str("Smart Auto: building the strategy ladder…"));
        }
        let plan = build_plan(&self.profile, hostile);
        proof {
            crate::smart_auto::lemma_plan_length(self.profile@, hostile);
        }
        let summary = crate::smart_auto::plan_summary(&plan);
        log_to(acts, 'I', "auto", summary);
        assert(actions_view(acts@) =~= a1 + planning_notes(old(self)@.profile, hostile));
        self.plan = plan;
        self.plan_index = 0;
        self.start_candidate(acts);
        assert(actions_view(acts@) =~= a0 + spec_connect(old(self)@, hostile).1);
    }

    fn disconnect(&mut self, acts: &mut Vec<Action>)
        ensures
            final(self)@ == spec_disconnect(old(self)@).0,
            actions_view(final(acts)@) == actions_view(old(acts)@) + spec_disconnect(old(self)@).1,
    {
        let ghost a0 = actions_view(acts@);
        self.set_state(acts, ConnectionState::Disconnecting, String::from_str("Disconnecting…"));
        emit(acts, Action::Teardown);
        emit(acts, Action::ResetChecks);
        self.latency_probe_at = None;
        emit(acts, Action::DropLatencySample);
        self.connected_at = None;
        self.endpoint = None;
        self.latency_ms = None;
        self.effective_protocol = None;
        self.deadline = None;
        self.reconnect_at = None;
        self.verifying = false;
        self.plan.clear();
        self.plan_index = 0;
        self.set_state(acts, ConnectionState::Disconnected, String::new());
        assert(plan_view(self.plan@) =~= Seq::<CandidateView>::empty());
        assert(actions_view(acts@) =~= a0 + spec_disconnect(old(self)@).1);
    }

    /// The connect button. `hostile` is the network fingerprint, taken only
    /// when [`toggle_connects`](Self::toggle_connects) says a connection starts.
    pub fn toggle(&mut self, hostile: bool) -> (acts: Vec<Action>)
        requires
            wf(old(self)@),
        ensures
            wf(final(self)@),
            (final(self)@, actions_view(acts@)) == spec_toggle(old(self)@, hostile),
            launch_last(actions_view(acts@)),
            ends_with_launch(actions_view(acts@)) ==> launching(final(self)@),
    {
        let mut acts: Vec<Action> = Vec::new();
        assert(actions_view(acts@) =~= Seq::<ActionView>::empty());
        if self.state.is_active() {
            self.disconnect(&mut acts);
            assert(actions_view(acts@) =~= spec_disconnect(old(self)@).1);
        } else {
            self.connect(&mut acts, hostile);
            assert(actions_view(acts@) =~= spec_connect(old(self)@, hostile).1);
            proof {
                crate::smart_auto::lemma_plan_timeouts(old(self)@.profile, hostile);
                lemma_timeout_bound(old(self)@.profile);
            }
        }
        acts
    }
}

impl AetherController {
    fn port_up(&mut self, acts: &mut Vec<Action>, now: u64)
        requires
            0 <= old(self).plan_index < old(self).plan.len() < 1000,
        ensures
            final(self)@ == spec_port_up(old(self)@, now).0,
            actions_view(final(acts)@) == actions_view(old(acts)@) + spec_port_up(old(self)@, now).1,
    {
        let ghost a0 = actions_view(acts@);
        log_to(
            acts,
            'I',
            TAG,
            String::from_str("SOCKS5 port is up — bringing up the data path."),
        );
        let profile = self.plan[self.plan_index].profile.clone();
        assert(plan_view(self.plan@)[self.plan_index as int] == self.plan@[self.plan_index as int]@);
        emit(acts, Action::BringUpDataPath { profile });
        let remaining = match self.deadline {
            Some(d) => if d > now {
                d - now
            } else {
                0
            },
            None => OUTBOUND_GRACE_MS,
        };
        let grace = if remaining < MIN_GRACE_MS {
            MIN_GRACE_MS
        } else if remaining > OUTBOUND_GRACE_MS {
            OUTBOUND_GRACE_MS
        } else {
            remaining
        };
        emit(acts, Action::BeginVerification { grace_ms: grace });
        self.verifying = true;
        let ghost a1 = actions_view(acts@);
        self.set_state(acts, ConnectionState::Verifying, String::from_str("Verifying…"));
        assert(actions_view(acts@) =~= a0 + spec_port_up(old(self)@, now).1);
    }

    fn verified(&mut self, acts: &mut Vec<Action>, now: u64, out: SelfTestOutcome)
        requires
            out.ok,
        ensures
            final(self)@ == spec_verified(old(self)@, now, outcome_view(out)).0,
            actions_view(final(acts)@) == actions_view(old(acts)@) + spec_verified(
                old(self)@,
                now,
                outcome_view(out),
            ).1,
    {
        let ghost a0 = actions_view(acts@);
        let ghost o = outcome_view(out);
        self.verifying = false;
        let had_exit = out.exit.is_some();
        match &out.exit {
            Some(exit) => {
                let text = match &exit.country_code {
                    Some(cc) => exit.ip.clone().concat(" · ").concat(cc.as_str()),
                    None => exit.ip.clone(),
                };
                self.endpoint = Some(text);
                emit(
                    acts,
                    Action::OfferTunnelIp {
                        ip: exit.ip.clone(),
                        country_code: clone_opt_string(&exit.country_code),
                    },
                );
            },
            None => {},
        }
        self.latency_ms = out.latency_ms;
        self.connected_at = Some(now);
        self.attempts = 0;
        let ghost a1 = actions_view(acts@);
        self.set_state(acts, ConnectionState::Connected, String::new());
        log_to(acts, 'I', TAG, String::from_str("All checks passed — tunnel is ready."));
        let ghost a2 = actions_view(acts@);
        if !had_exit {
            emit(acts, Action::LookupIp { via_tunnel: true });
        }
        assert(actions_view(acts@) =~= a0 + spec_verified(old(self)@, now, o).1);
    }

    fn engine_died(&mut self, acts: &mut Vec<Action>, now: u64)
        requires
            old(self).attempts <= MAX_RETRIES,
            now < CLOCK_LIMIT_MS,
        ensures
            final(self)@ == spec_engine_died(old(self)@, now).0,
            actions_view(final(acts)@) == actions_view(old(acts)@) + spec_engine_died(
                old(self)@,
                now,
            ).1,
    {
        let ghost a0 = actions_view(acts@);
        if self.attempts >= MAX_RETRIES {
            self.fail(
                acts,
                String::from_str("The engine keeps dying — giving up after repeated restarts."),
            );
            return ;
        }
        let backoff: u64 = if self.attempts == 0 {
            2_000
        } else if self.attempts == 1 {
            5_000
        } else {
            10_000
        };
        let ghost before = self@;
        self.attempts = self.attempts + 1;
        self.connected_at = None;
        self.reconnect_at = Some(now + backoff);
        log_to(
            acts,
            'W',
            TAG,
            String::from_str("Engine died while connected — restarting in ").concat(
                decimal_string(backoff / 1000).as_str(),
            ).concat("s."),
        );
        let detail = String::from_str("Attempt ").concat(
            decimal_string(self.attempts as u64).as_str(),
        ).concat(" of ").concat(decimal_string(MAX_RETRIES as u64).as_str());
        assert(detail@ == restart_detail(before.attempts));
        self.set_state(acts, ConnectionState::Reconnecting, detail);
        assert(actions_view(acts@) =~= a0 + spec_engine_died(old(self)@, now).1);
    }

    fn connected_tick(&mut self, acts: &mut Vec<Action>, now: u64, facts: &TickFacts)
        requires
            old(self).attempts <= MAX_RETRIES,
            now < CLOCK_LIMIT_MS,
        ensures
            final(self)@ == spec_connected_tick(old(self)@, now, facts@).0,
            actions_view(final(acts)@) == actions_view(old(acts)@) + spec_connected_tick(
                old(self)@,
                now,
                facts@,
            ).1,
    {
        let ghost a0 = actions_view(acts@);
        if let Some(ms) = facts.latency_sample {
            self.latency_ms = Some(ms);
        }
        let due = match self.latency_probe_at {
            Some(t) => now >= t,
            None => true,
        };
        if due {
            self.latency_probe_at = Some(now + LATENCY_PROBE_INTERVAL_MS);
            emit(acts, Action::ProbeLatency);
        }
        let ghost a1 = actions_view(acts@);
        if !facts.engine_alive {
            self.engine_died(acts, now);
        }
        assert(actions_view(acts@) =~= a0 + spec_connected_tick(old(self)@, now, facts@).1);
    }

    /// One supervision step (every 200 ms): follows the engine, the port, the
    /// self-test, the live latency and engine restarts.
    pub fn tick(&mut self, now: u64, facts: TickFacts) -> (acts: Vec<Action>)
        requires
            wf(old(self)@),
            now < CLOCK_LIMIT_MS,
        ensures
            wf(final(self)@),
            (final(self)@, actions_view(acts@)) == spec_tick(old(self)@, now, facts@),
            launch_last(actions_view(acts@)),
            ends_with_launch(actions_view(acts@)) ==> launching(final(self)@),
    {
        let ghost f = facts@;
        let mut acts: Vec<Action> = Vec::new();
        assert(actions_view(acts@) =~= Seq::<ActionView>::empty());
        match self.state {
            ConnectionState::Connecting => {
                if !facts.engine_alive {
                    self.advance_or_fail(&mut acts, "Engine exited before it opened the SOCKS5 port");
                } else if facts.socks_ready {
                    self.port_up(&mut acts, now);
                } else if match self.deadline {
                    Some(d) => now > d,
                    None => false,
                } {
                    self.advance_or_fail(
                        &mut acts,
                        "Engine still scanning — the SOCKS5 port never opened in time",
                    );
                }
            },
            ConnectionState::Verifying => {
                let outcome = if self.verifying {
                    facts.verify_outcome
                } else {
                    None
                };
                match outcome {
                    Some(out) => {
                        if out.ok {
                            self.verified(&mut acts, now, out);
                        } else {
                            self.advance_or_fail(
                                &mut acts,
                                "Tunnel started, but the end-to-end self-test failed",
                            );
                        }
                    },
                    None => {
                        if !facts.engine_alive {
                            self.advance_or_fail(&mut acts, "The engine stopped during verification");
                        }
                    },
                }
            },
            ConnectionState::Connected => {
                self.connected_tick(&mut acts, now, &facts);
            },
            ConnectionState::Reconnecting => {
                if let Some(at) = self.reconnect_at {
                    if now >= at {
                        self.reconnect_at = None;
                        emit(&mut acts, Action::Teardown);
                        self.start_candidate(&mut acts);
                    }
                }
            },
            _ => {},
        }
        acts
    }
}

pub struct IpEndpointView {
    pub ip: Seq<char>,
    pub country_code: Option<Seq<char>>,
    pub via_tunnel: bool,
}

impl View for IpEndpoint {
    type V = IpEndpointView;

    open spec fn view(&self) -> IpEndpointView {
        IpEndpointView {
            ip: self.ip@,
            country_code: opt_string_view(self.country_code),
            via_tunnel: self.via_tunnel,
        }
    }
}

impl Clone for IpEndpoint {
    fn clone(&self) -> (r: Self)
        ensures
            r@ == self@,
    {
        IpEndpoint {
            ip: self.ip.clone(),
            country_code: clone_opt_string(&self.country_code),
            via_tunnel: self.via_tunnel,
        }
    }
}

pub open spec fn opt_endpoint_view(o: Option<IpEndpoint>) -> Option<IpEndpointView> {
    match o {
        Some(e) => Some(e@),
        None => None,
    }
}

/// Seconds since the connection came up (0 when not connected).
pub open spec fn spec_uptime_secs(c: ControllerView, now: u64) -> u64 {
    match c.connected_at {
        Some(t) => if now >= t {
            ((now - t) / 1000) as u64
        } else {
            0
        },
        None => 0,
    }
}

impl AetherController {
    /// What the interface shows: the controller's state together with the
    /// traffic counters of the tunnel and of the bridge, the bridge's LAN
    /// endpoints and the address badge.
    pub fn snapshot(
        &self,
        now: u64,
        tunnel_traffic: (u64, u64),
        bridge_traffic: (u64, u64),
        share_socks: Option<String>,
        share_http: Option<String>,
        ip_info: Option<IpEndpoint>,
        ip_loading: bool,
    ) -> (snap: Snapshot)
        requires
            tunnel_traffic.0 + bridge_traffic.0 <= u64::MAX,
            tunnel_traffic.1 + bridge_traffic.1 <= u64::MAX,
        ensures
            snap.state == self@.state,
            snap.detail@ == self@.detail,
            opt_string_view(snap.error) == self@.error,
            opt_string_view(snap.endpoint) == self@.endpoint,
            opt_string_view(snap.protocol) == match self@.effective_protocol {
                Some(p) => Some(protocol_name(p)),
                None => None,
            },
            snap.latency_ms == self@.latency_ms,
            snap.uptime_secs == spec_uptime_secs(self@, now),
            snap.rx_bytes == tunnel_traffic.0 + bridge_traffic.0,
            snap.tx_bytes == tunnel_traffic.1 + bridge_traffic.1,
            opt_string_view(snap.share_socks) == opt_string_view(share_socks),
            opt_string_view(snap.share_http) == opt_string_view(share_http),
            opt_endpoint_view(snap.ip_info) == opt_endpoint_view(ip_info),
            snap.ip_loading == ip_loading,
    {
        let uptime = match self.connected_at {
            Some(t) => if now >= t {
                (now - t) / 1000
            } else {
                0
            },
            None => 0,
        };
        Snapshot {
            state: self.state,
            detail: self.detail.clone(),
            error: clone_opt_string(&self.error),
            endpoint: clone_opt_string(&self.endpoint),
            protocol: match self.effective_protocol {
                Some(p) => Some(upper_protocol_name(p)),
                None => None,
            },
            latency_ms: self.latency_ms,
            uptime_secs: uptime,
            rx_bytes: tunnel_traffic.0 + bridge_traffic.0,
            tx_bytes: tunnel_traffic.1 + bridge_traffic.1,
            share_socks,
            share_http,
            ip_info,
            ip_loading,
        }
    }
}

/// The connect button on an active connection always disconnects: the data
/// path is torn down and the controller ends disconnected with a clean slate.
pub proof fn lemma_toggle_disconnects(c: ControllerView, hostile: bool)
    requires
        spec_is_active(c.state),
    ensures
        spec_toggle(c, hostile).0.state == ConnectionState::Disconnected,
        spec_toggle(c, hostile).0.plan.len() == 0,
        spec_toggle(c, hostile).0.connected_at is None,
        spec_toggle(c, hostile).1.contains(ActionView::Teardown),
{
    let e = spec_toggle(c, hostile).1;
    let k = 1 + phase_effects(c.state, ConnectionState::Disconnecting).len() as int;
    assert(e[k] == ActionView::Teardown);
}

/// The connect button on an idle or failed controller starts the first step
/// of the plan for the current profile, with the error cleared.
pub proof fn lemma_toggle_connects(c: ControllerView, hostile: bool)
    requires
        !spec_is_active(c.state),
    ensures
        spec_toggle(c, hostile).0.state == ConnectionState::StartingEngine,
        spec_toggle(c, hostile).0.error is None,
        spec_toggle(c, hostile).0.plan == spec_build_plan(c.profile, hostile),
        spec_toggle(c, hostile).0.plan_index == 0,
        spec_toggle(c, hostile).1.last() == (ActionView::LaunchEngine {
            profile: spec_build_plan(c.profile, hostile)[0].profile,
        }),
{
    crate::smart_auto::lemma_plan_length(c.profile, hostile);
}

/// A connection attempt never stays in "starting": once the requested launch
/// is reported, the controller is connecting, or failed with the launch error.
pub proof fn lemma_launch_never_stuck(c: ControllerView, now: u64, ok: bool, why: Seq<char>)
    requires
        launching(c),
    ensures
        ok ==> spec_on_launch(c, now, ok, why).0.state == ConnectionState::Connecting,
        !ok ==> spec_on_launch(c, now, ok, why).0.state == ConnectionState::Failed
            && spec_on_launch(c, now, ok, why).0.error == Some(why),
{
}

/// "Connected" is only ever entered from verification, through a self-test
/// that passed.
pub proof fn lemma_connected_needs_passing_selftest(c: ControllerView, now: u64, f: FactsView)
    requires
        c.state != ConnectionState::Connected,
        spec_tick(c, now, f).0.state == ConnectionState::Connected,
    ensures
        c.state == ConnectionState::Verifying,
        c.verifying,
        f.verify_outcome matches Some(o) && o.ok,
{
}

/// A failed (or idle) controller stays exactly as it is until the user acts.
pub proof fn lemma_idle_tick_is_noop(c: ControllerView, now: u64, f: FactsView)
    requires
        c.state == ConnectionState::Failed || c.state == ConnectionState::Disconnected,
    ensures
        spec_tick(c, now, f) == (c, Seq::<ActionView>::empty()),
{
}

/// Engine restarts while connected are capped: at the cap the controller
/// fails, below it the restart waits 2 s, 5 s, then 10 s.
pub proof fn lemma_restart_backoff(c: ControllerView, now: u64, f: FactsView)
    requires
        c.state == ConnectionState::Connected,
        !f.engine_alive,
        c.attempts <= MAX_RETRIES,
    ensures
        c.attempts == MAX_RETRIES ==> spec_tick(c, now, f).0.state == ConnectionState::Failed,
        c.attempts < MAX_RETRIES ==> {
            let n = spec_tick(c, now, f).0;
            &&& n.state == ConnectionState::Reconnecting
            &&& n.attempts == c.attempts + 1
            &&& n.reconnect_at == Some((now + backoff_ms(c.attempts)) as u64)
        },
{
}

/// Errors revert the system: a supervision step that makes the controller
/// fail, or a launch that fails, always tears the data path down (system
/// proxy, bridge, tunnel and engine).
pub proof fn lemma_failure_tears_down(c: ControllerView, now: u64, f: FactsView, why: Seq<char>)
    requires
        wf(c),
        c.state != ConnectionState::Failed,
    ensures
        spec_tick(c, now, f).0.state == ConnectionState::Failed ==> spec_tick(c, now, f).1.contains(
            ActionView::Teardown,
        ),
        spec_on_launch(c, now, false, why).1.contains(ActionView::Teardown),
{
    let r = spec_tick(c, now, f);
    assert(spec_on_launch(c, now, false, why).1[1] == ActionView::Teardown);
    if r.0.state == ConnectionState::Failed {
        match c.state {
            ConnectionState::Connected => {
                let due = match c.latency_probe_at {
                    Some(t) => now >= t,
                    None => true,
                };
                let k: int = if due {
                    2
                } else {
                    1
                };
                assert(r.1[k] == ActionView::Teardown);
            },
            _ => {
                assert(r.1[1] == ActionView::Teardown);
            },
        }
    }
}

/// A passing self-test resets the restart budget.
pub proof fn lemma_verified_resets_attempts(c: ControllerView, now: u64, f: FactsView)
    requires
        c.state == ConnectionState::Verifying,
        c.verifying,
        f.verify_outcome matches Some(o) && o.ok,
    ensures
        spec_tick(c, now, f).0.state == ConnectionState::Connected,
        spec_tick(c, now, f).0.attempts == 0,
        spec_tick(c, now, f).0.connected_at == Some(now),
{
}

/// While connected the restart budget is untouched (a passing self-test
/// resets it), so an engine death while connected always schedules a restart.
pub proof fn lemma_connected_death_restarts(c: ControllerView, now: u64, f: FactsView)
    requires
        wf(c),
        c.state == ConnectionState::Connected,
        !f.engine_alive,
    ensures
        spec_tick(c, now, f).0.state == ConnectionState::Reconnecting,
        spec_tick(c, now, f).0.attempts == 1,
{
}

/// A restart after an engine death relaunches the step that was connected:
/// the engine dies while connected, and once the backoff has passed the
/// next supervision step tears down and launches the same plan step again,
/// with the same profile, leaving the plan and the step index as they were.
pub proof fn lemma_restart_relaunches_winning_step(
    c: ControllerView,
    now: u64,
    f: FactsView,
    later: u64,
    g: FactsView,
)
    requires
        wf(c),
        c.state == ConnectionState::Connected,
        !f.engine_alive,
        spec_tick(c, now, f).0.reconnect_at matches Some(at) && later >= at,
    ensures
        ({
            let c1 = spec_tick(c, now, f).0;
            let r = spec_tick(c1, later, g);
            &&& c1.state == ConnectionState::Reconnecting
            &&& c1.plan == c.plan
            &&& c1.plan_index == c.plan_index
            &&& r.0.plan == c.plan
            &&& r.0.plan_index == c.plan_index
            &&& r.1[0] == ActionView::Teardown
            &&& r.1.last() == ActionView::LaunchEngine { profile: c.plan[c.plan_index].profile }
        }),
{
}

/// In "Reconnecting", once the restart time has come, the step that is
/// launched is the current one, with its own profile.
pub proof fn lemma_reconnect_launches_current_step(c: ControllerView, now: u64, f: FactsView)
    requires
        wf(c),
        c.state == ConnectionState::Reconnecting,
        c.reconnect_at matches Some(at) && now >= at,
    ensures
        spec_tick(c, now, f).0.plan_index == c.plan_index,
        spec_tick(c, now, f).0.plan == c.plan,
        spec_tick(c, now, f).1.last() == (ActionView::LaunchEngine {
            profile: c.plan[c.plan_index].profile,
        }),
{
}

/// The address badge: the shown address, whether a lookup is running, and
/// the generation of the newest lookup (older results are dropped).
pub struct IpSlot {
    info: Option<IpEndpoint>,
    loading: bool,
    session: u64,
}

pub struct IpSlotView {
    pub info: Option<IpEndpointView>,
    pub loading: bool,
    pub session: u64,
}

impl View for IpSlot {
    type V = IpSlotView;

    closed spec fn view(&self) -> IpSlotView {
        IpSlotView { info: opt_endpoint_view(self.info), loading: self.loading, session: self.session }
    }
}

pub open spec fn next_session(s: u64) -> u64 {
    if s == u64::MAX {
        0
    } else {
        (s + 1) as u64
    }
}

fn bump(s: u64) -> (r: u64)
    ensures
        r == next_session(s),
{
    if s == u64::MAX {
        0
    } else {
        s + 1
    }
}

impl IpSlot {
    pub fn new() -> (slot: Self)
        ensures
            slot@.info is None,
            !slot@.loading,
            slot@.session == 0,
    {
        IpSlot { info: None, loading: false, session: 0 }
    }

    /// Starts a lookup; a direct lookup also hides the address shown so far.
    /// Returns the lookup's generation.
    pub fn begin_lookup(&mut self, via_tunnel: bool) -> (session: u64)
        ensures
            session == next_session(old(self)@.session),
            final(self)@ == (IpSlotView {
                info: if via_tunnel {
                    old(self)@.info
                } else {
                    None
                },
                loading: true,
                session,
            }),
    {
        self.session = bump(self.session);
        self.loading = true;
        if !via_tunnel {
            self.info = None;
        }
        self.session
    }

    /// Records the result of lookup `session`; a result from an older
    /// generation is dropped. Returns whether it was taken.
    pub fn finish_lookup(&mut self, session: u64, via_tunnel: bool, result: Option<IpInfo>) -> (taken:
        bool)
        ensures
            taken == (session == old(self)@.session),
            taken ==> final(self)@ == (IpSlotView {
                info: match result {
                    Some(i) => Some(
                        IpEndpointView {
                            ip: i.ip@,
                            country_code: opt_string_view(i.country_code),
                            via_tunnel,
                        },
                    ),
                    None => None,
                },
                loading: false,
                session,
            }),
            !taken ==> final(self)@ == old(self)@,
    {
        if self.session != session {
            return false;
        }
        self.info = match result {
            Some(i) => Some(IpEndpoint { ip: i.ip, country_code: i.country_code, via_tunnel }),
            None => None,
        };
        self.loading = false;
        true
    }

    /// Forgets the shown address and any running lookup.
    pub fn clear(&mut self)
        ensures
            final(self)@ == (IpSlotView { info: None, loading: false, session: next_session(old(self)@.session) }),
    {
        self.session = bump(self.session);
        self.info = None;
        self.loading = false;
    }

    /// Shows the tunnel's exit address found by the self-test.
    pub fn offer_tunnel_ip(&mut self, ip: String, country_code: Option<String>)
        ensures
            final(self)@ == (IpSlotView {
                info: Some(
                    IpEndpointView { ip: ip@, country_code: opt_string_view(country_code), via_tunnel: true },
                ),
                loading: false,
                session: next_session(old(self)@.session),
            }),
    {
        self.session = bump(self.session);
        self.info = Some(IpEndpoint { ip, country_code, via_tunnel: true });
        self.loading = false;
    }

    /// The shown address and whether a lookup is running.
    pub fn read(&self) -> (r: (Option<IpEndpoint>, bool))
        ensures
            opt_endpoint_view(r.0) == self@.info,
            r.1 == self@.loading,
    {
        let info = match &self.info {
            Some(e) => Some(e.clone()),
            None => None,
        };
        (info, self.loading)
    }
}

/// A lookup that a newer one, a clear or a tunnel offer has superseded can
/// no longer show its result: every one of those moves the generation on.
pub proof fn lemma_superseded_lookup_dropped(slot: IpSlotView, session: u64)
    requires
        session == slot.session,
    ensures
        next_session(slot.session) != session,
{
}

} // verus!
