//! The Windows system proxy (WinINET, per user): the registry writes that point
//! it at the local HTTP bridge and that switch it off again.

use vstd::prelude::*;
use crate::profile::push_string;
use crate::text::{decimal, decimal_string};

verus! {

/// The per-user Internet Settings key.
pub const KEY: &'static str = "HKCU\\Software\\Microsoft\\Windows\\CurrentVersion\\Internet Settings";

/// Destinations that never go through the proxy: the LAN and loopback.
pub const BYPASS: &'static str = "localhost;127.*;10.*;172.16.*;192.168.*;<local>";

/// Arguments of `reg add KEY /v <name> /t <type> /d <data> /f`.
pub open spec fn reg_add(name: Seq<char>, ty: Seq<char>, data: Seq<char>) -> Seq<Seq<char>> {
    seq!["add"@, KEY@, "/v"@, name, "/t"@, ty, "/d"@, data, "/f"@]
}

pub open spec fn proxy_server(http_port: u16) -> Seq<char> {
    "127.0.0.1:"@ + decimal(http_port as nat)
}

/// The writes that enable the system proxy, to run in order, stopping at the
/// first that fails: the server, the bypass list, then the enable flag.
pub open spec fn spec_enable(http_port: u16) -> Seq<Seq<Seq<char>>> {
    seq![
        reg_add("ProxyServer"@, "REG_SZ"@, proxy_server(http_port)),
        reg_add("ProxyOverride"@, "REG_SZ"@, BYPASS@),
        reg_add("ProxyEnable"@, "REG_DWORD"@, "1"@),
    ]
}

/// The write that disables the system proxy.
pub open spec fn spec_disable() -> Seq<Seq<Seq<char>>> {
    seq![reg_add("ProxyEnable"@, "REG_DWORD"@, "0"@)]
}

pub open spec fn commands_view(v: Seq<Vec<String>>) -> Seq<Seq<Seq<char>>> {
    v.map_values(|c: Vec<String>| c.deep_view())
}

fn reg_add_command(name: &str, ty: &str, data: String) -> (c: Vec<String>)
    ensures
        c.deep_view() == reg_add(name@, ty@, data@),
{
    let mut c: Vec<String> = Vec::new();
    push_string(&mut c, String::from_str("add"));
    push_string(&mut c, String::from_str(KEY));
    push_string(&mut c, String::from_str("/v"));
    push_string(&mut c, String::from_str(name));
    push_string(&mut c, String::from_str("/t"));
    push_string(&mut c, String::from_str(ty));
    push_string(&mut c, String::from_str("/d"));
    push_string(&mut c, data);
    push_string(&mut c, String::from_str("/f"));
    assert(c.deep_view() =~= reg_add(name@, ty@, data@));
    c
}

/// The registry writes that point the system proxy at the local HTTP bridge.
pub fn enable(http_port: u16) -> (cmds: Vec<Vec<String>>)
    ensures
        commands_view(cmds@) == spec_enable(http_port),
{
    let server = String::from_str("127.0.0.1:").concat(decimal_string(http_port as u64).as_str());
    let mut cmds: Vec<Vec<String>> = Vec::new();
    cmds.push(reg_add_command("ProxyServer", "REG_SZ", server));
    cmds.push(reg_add_command("ProxyOverride", "REG_SZ", String::from_str(BYPASS)));
    cmds.push(reg_add_command("ProxyEnable", "REG_DWORD", String::from_str("1")));
    assert(commands_view(cmds@) =~= spec_enable(http_port));
    cmds
}

/// The registry write that switches the system proxy off.
pub fn disable() -> (cmds: Vec<Vec<String>>)
    ensures
        commands_view(cmds@) == spec_disable(),
{
    let mut cmds: Vec<Vec<String>> = Vec::new();
    cmds.push(reg_add_command("ProxyEnable", "REG_DWORD", String::from_str("0")));
    assert(commands_view(cmds@) =~= spec_disable());
    cmds
}

/// The log line after the system proxy was enabled.
pub fn enabled_message(http_port: u16) -> (s: String)
    ensures
        s@ == "System proxy enabled -> "@ + proxy_server(http_port) + " (bypass: "@ + BYPASS@ + ")"@,
{
    String::from_str("System proxy enabled -> ").concat("127.0.0.1:").concat(
        decimal_string(http_port as u64).as_str(),
    ).concat(" (bypass: ").concat(BYPASS).concat(")")
}

/// Disabling writes only the enable flag, never the server or bypass list, so
/// a later enable restores the same proxy.
pub proof fn lemma_disable_only_clears_flag()
    ensures
        spec_disable().len() == 1,
        spec_disable()[0] == reg_add("ProxyEnable"@, "REG_DWORD"@, "0"@),
        spec_enable(0)[2][3] == spec_disable()[0][3],
{
}

} // verus!
