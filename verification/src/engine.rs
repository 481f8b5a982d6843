//! Engine constants and the launch decisions that do not touch the process.

use vstd::prelude::*;
use crate::profile::{ConnectionProfile, append_strings, push_string, spec_args, spec_env};
use crate::text::{
    chars_of, find_char, index_of, joined, lemma_joined_push, parse_u32, spec_parse_u32, string_of,
    subchars, trim, trim_chars,
};

verus! {

/// The engine's local SOCKS5 port.
pub const LOCAL_SOCKS_PORT: u16 = 1819;

/// LAN sharing ports (SOCKS5 and HTTP).
pub const SHARE_SOCKS_PORT: u16 = 10810;

pub const SHARE_HTTP_PORT: u16 = 10811;

/// Grace period between the polite stop and the hard kill, in milliseconds.
pub const GRACEFUL_EXIT_MS: u64 = 250;

/// The engine's answer to its interactive quick-reconnect question.
pub const STDIN_ANSWER: &'static str = "y\n";

/// Identity files moved next to a staged engine once.
pub const IDENTITY_FILES: [&'static str; 2] = ["aether.toml", "aether-secondary.toml"];

/// Drops every leading `v`.
pub open spec fn strip_leading_v(s: Seq<char>) -> Seq<char>
    decreases s.len(),
{
    if s.len() > 0 && s[0] == 'v' {
        strip_leading_v(s.drop_first())
    } else {
        s
    }
}

/// The first `.`-separated field and what follows its dot (empty fields where absent).
pub open spec fn first_field(s: Seq<char>) -> Seq<char> {
    match index_of(s, '.') {
        Some(i) => s.take(i),
        None => s,
    }
}

pub open spec fn after_first_dot(s: Seq<char>) -> Option<Seq<char>> {
    match index_of(s, '.') {
        Some(i) => Some(s.subrange(i + 1, s.len() as int)),
        None => None,
    }
}

pub open spec fn field_number(f: Option<Seq<char>>) -> u32 {
    match f {
        Some(x) => match spec_parse_u32(x) {
            Some(n) => n,
            None => 0,
        },
        None => 0,
    }
}

/// The (major, minor) version in a `CORE_VERSION` text like `v1.4.0`; a
/// field that is missing or not a number counts as 0.
pub open spec fn spec_core_version(text: Seq<char>) -> (u32, u32) {
    let t = strip_leading_v(trim(text));
    let major = field_number(Some(first_field(t)));
    let minor = match after_first_dot(t) {
        Some(rest) => field_number(Some(first_field(rest))),
        None => 0,
    };
    (major, minor)
}

/// Engines from 1.4 on understand `--log-level` and `--perf`.
pub open spec fn spec_supports_log_level(text: Seq<char>) -> bool {
    let (major, minor) = spec_core_version(text);
    major > 1 || (major == 1 && minor >= 4)
}

fn field_value(f: &Vec<char>) -> (n: u32)
    ensures
        n == field_number(Some(f@)),
{
    match parse_u32(f) {
        Some(n) => n,
        None => 0,
    }
}

fn first_field_chars(s: &Vec<char>) -> (r: Vec<char>)
    ensures
        r@ == first_field(s@),
{
    match find_char(s, '.') {
        Some(i) => subchars(s, 0, i),
        None => {
            let r = subchars(s, 0, s.len());
            assert(r@ =~= s@);
            r
        },
    }
}

/// The core version read from a `CORE_VERSION` text.
pub fn parse_core_version(text: &str) -> (r: (u32, u32))
    ensures
        r == spec_core_version(text@),
{
    let t0 = trim_chars(&chars_of(text));
    let mut start: usize = 0;
    assert(t0@.subrange(0, t0@.len() as int) =~= t0@);
    while start < t0.len() && t0[start] == 'v'
        invariant
            0 <= start <= t0.len(),
            strip_leading_v(t0@) == strip_leading_v(t0@.subrange(start as int, t0@.len() as int)),
        decreases t0.len() - start,
    {
        let ghost rest = t0@.subrange(start as int, t0@.len() as int);
        assert(rest.drop_first() =~= t0@.subrange(start + 1, t0@.len() as int));
        start = start + 1;
    }
    let t = subchars(&t0, start, t0.len());
    assert(strip_leading_v(t@) == t@);
    let major = field_value(&first_field_chars(&t));
    let minor = match find_char(&t, '.') {
        Some(i) => {
            let rest = subchars(&t, i + 1, t.len());
            field_value(&first_field_chars(&rest))
        },
        None => 0,
    };
    (major, minor)
}

/// Whether an engine with this `CORE_VERSION` text takes `--log-level` and `--perf`.
pub fn supports_log_level(text: &str) -> (r: bool)
    ensures
        r == spec_supports_log_level(text@),
{
    let (major, minor) = parse_core_version(text);
    major > 1 || (major == 1 && minor >= 4)
}

/// The engine's full argument list: the profile's arguments, led by
/// `--log-level info --perf high` for engines that understand them.
pub open spec fn spec_engine_args(p: crate::profile::ProfileView, flags: bool) -> Seq<Seq<char>> {
    if flags {
        seq!["--log-level"@, "info"@, "--perf"@, "high"@] + spec_args(p)
    } else {
        spec_args(p)
    }
}

/// The engine's environment: the profile's variables, then the run directory
/// as `HOME` and `TMPDIR`, full backtraces and debug logging.
pub open spec fn spec_engine_env(p: crate::profile::ProfileView, run_dir: Seq<char>) -> Seq<
    (Seq<char>, Seq<char>),
> {
    spec_env(p) + seq![
        ("HOME"@, run_dir),
        ("TMPDIR"@, run_dir),
        ("RUST_BACKTRACE"@, "full"@),
        ("RUST_LOG"@, "debug"@),
    ]
}

/// How to launch the engine.
#[derive(Debug)]
pub struct EngineCommand {
    pub args: Vec<String>,
    pub env: Vec<(String, String)>,
}

pub open spec fn pairs_view(v: Seq<(String, String)>) -> Seq<(Seq<char>, Seq<char>)> {
    v.map_values(|kv: (String, String)| (kv.0@, kv.1@))
}

/// The arguments and environment of an engine launch for `profile`, run in `run_dir`.
pub fn engine_command(profile: &ConnectionProfile, log_level_flags: bool, run_dir: &str) -> (c:
    EngineCommand)
    ensures
        c.args.deep_view() == spec_engine_args(profile@, log_level_flags),
        pairs_view(c.env@) == spec_engine_env(profile@, run_dir@),
{
    let profile_args = profile.to_args();
    let mut args: Vec<String> = Vec::new();
    if log_level_flags {
        push_string(&mut args, String::from_str("--log-level"));
        push_string(&mut args, String::from_str("info"));
        push_string(&mut args, String::from_str("--perf"));
        push_string(&mut args, String::from_str("high"));
    }
    let ghost a0 = args.deep_view();
    assert(a0 =~= (if log_level_flags {
        seq!["--log-level"@, "info"@, "--perf"@, "high"@]
    } else {
        Seq::<Seq<char>>::empty()
    }));
    append_strings(&mut args, profile_args);
    assert(args.deep_view() =~= spec_engine_args(profile@, log_level_flags));
    let mut env = profile.to_env();
    let ghost e0 = pairs_view(env@);
    env.push((String::from_str("HOME"), String::from_str(run_dir)));
    env.push((String::from_str("TMPDIR"), String::from_str(run_dir)));
    env.push((String::from_str("RUST_BACKTRACE"), String::from_str("full")));
    env.push((String::from_str("RUST_LOG"), String::from_str("debug")));
    assert(pairs_view(env@) =~= spec_engine_env(profile@, run_dir@));
    EngineCommand { args, env }
}

/// The launch line for the log: `Spawned aether.exe <args separated by spaces>`.
pub fn spawn_message(args: &Vec<String>) -> (s: String)
    ensures
        s@ == "Spawned aether.exe "@ + joined(args.deep_view(), " "@),
{
    let mut s = String::from_str("Spawned aether.exe ");
    let ghost head = s@;
    let mut k: usize = 0;
    while k < args.len()
        invariant
            0 <= k <= args.len(),
            head == "Spawned aether.exe "@,
            s@ == head + joined(args.deep_view().take(k as int), " "@),
        decreases args.len() - k,
    {
        proof {
            lemma_joined_push(args.deep_view(), " "@, k as int);
        }
        if k > 0 {
            s = s.concat(" ");
        }
        s = s.concat(args[k].as_str());
        k = k + 1;
    }
    assert(args.deep_view().take(args.len() as int) =~= args.deep_view());
    s
}

/// Size and modification time (nanoseconds since the Unix epoch, when known) of a file.
#[derive(Debug, Clone, Copy)]
pub struct FileStamp {
    pub len: u64,
    pub modified_ns: Option<u128>,
}

/// A staged copy is reused only when both files could be inspected, their
/// sizes agree, and the copy is not older than the installed file.
pub open spec fn spec_copy_is_fresh(src: Option<FileStamp>, dst: Option<FileStamp>) -> bool {
    match (src, dst) {
        (Some(a), Some(b)) => a.len == b.len && match (a.modified_ns, b.modified_ns) {
            (Some(s), Some(d)) => d >= s,
            _ => false,
        },
        _ => false,
    }
}

pub fn runtime_copy_is_fresh(src: Option<FileStamp>, dst: Option<FileStamp>) -> (r: bool)
    ensures
        r == spec_copy_is_fresh(src, dst),
{
    match (src, dst) {
        (Some(a), Some(b)) => {
            if a.len != b.len {
                return false;
            }
            match (a.modified_ns, b.modified_ns) {
                (Some(s), Some(d)) => d >= s,
                _ => false,
            }
        },
        _ => false,
    }
}

} // verus!
