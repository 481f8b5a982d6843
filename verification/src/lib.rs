//! Aether desktop core: connection profiles, strategy planning, the
//! connection controller, the diagnostics log and the local proxy bridge logic.

pub mod text;
pub mod profile;
pub mod smart_auto;
pub mod log;
pub mod engine;
pub mod diagnostics;
pub mod state;
pub mod share;
pub mod socks;
pub mod sysproxy;
pub mod tun;
pub mod store;
