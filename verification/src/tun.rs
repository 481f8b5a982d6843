//! The tunnel adapter's fixed addressing and the routing it announces.

use vstd::prelude::*;
use crate::profile::{ConnectionProfile, SplitMode, push_string};
use crate::text::{decimal, decimal_string};

verus! {

/// Addresses inside the tunnel.
pub const TUN_IPV4: [u8; 4] = [172, 19, 0, 2];

pub const TUN_IPV6: [u16; 8] = [0xfdfe, 0xdcba, 0x9876, 0, 0, 0, 0, 1];

pub const TUN_DNS_V4: [u8; 4] = [1, 1, 1, 1];

pub const TUN_DNS_V6: [u16; 8] = [0x2606, 0x4700, 0x4700, 0, 0, 0, 0, 0x1111];

pub const ADAPTER_NAME: &'static str = "Aether";

pub const ADAPTER_TYPE: &'static str = "Aether Tunnel";

/// The adapter's fixed GUID, so Windows recognises it across runs.
pub const ADAPTER_GUID: u128 = 0x7f1e_3c22_9a54_4d61_b0f3_9c2e_1a8d_47b5;

/// The split-tunnelling line of the routing summary.
pub open spec fn spec_split_line(mode: SplitMode, apps: nat) -> Seq<char> {
    match mode {
        SplitMode::Off => "Split tunnelling: off (default)"@,
        SplitMode::Include => "Split tunnelling: only "@ + decimal(apps) + " go through the tunnel"@,
        SplitMode::Exclude => "Split tunnelling: "@ + decimal(apps) + " bypass the tunnel"@,
    }
}

/// What the adapter captures: both default routes (no IPv6 leak), DNS pinned
/// inside the tunnel, and the split-tunnelling choice.
pub open spec fn spec_route_summary(mode: SplitMode, apps: nat) -> Seq<Seq<char>> {
    seq![
        "Default routes captured: 0.0.0.0/0 and ::/0"@,
        "DNS pinned to 1.1.1.1 / 2606:4700:4700::1111 inside the tunnel"@,
        spec_split_line(mode, apps),
    ]
}

pub fn route_summary(profile: &ConnectionProfile) -> (lines: Vec<String>)
    ensures
        lines.deep_view() == spec_route_summary(profile.split_mode, profile.split_apps.len() as nat),
{
    let mut lines: Vec<String> = Vec::new();
    push_string(&mut lines, String::from_str("Default routes captured: 0.0.0.0/0 and ::/0"));
    push_string(
        &mut lines,
        String::from_str("DNS pinned to 1.1.1.1 / 2606:4700:4700::1111 inside the tunnel"),
    );
    let n = profile.split_apps.len() as u64;
    let split = match profile.split_mode {
        SplitMode::Off => String::from_str("Split tunnelling: off (default)"),
        SplitMode::Include => String::from_str("Split tunnelling: only ").concat(
            decimal_string(n).as_str(),
        ).concat(" go through the tunnel"),
        SplitMode::Exclude => String::from_str("Split tunnelling: ").concat(
            decimal_string(n).as_str(),
        ).concat(" bypass the tunnel"),
    };
    push_string(&mut lines, split);
    assert(lines.deep_view() =~= spec_route_summary(
        profile.split_mode,
        profile.split_apps.len() as nat,
    ));
    lines
}

} // verus!
