# Aether Desktop core

The logic of the Aether Desktop VPN client, verified with Verus, and the
Windows application around it.

- `src/` — the verified library (crate `aether`):
  - `profile` — the connection profile, its defaults and the engine's command line and environment;
  - `smart_auto` — the strategy ladder (Smart Auto, anti-DPI hardening, fallback order);
  - `state` — the connection controller, a state machine from state and event to next state and actions;
  - `diagnostics` — the self-test that gates "Connected" and the six-point environment report;
  - `log` — the bounded diagnostics log and the self-test checks;
  - `share` — the LAN bridge: admitted peers, listening addresses, protocol sniffing, HTTP proxy routing;
  - `socks` — the SOCKS5 client framing towards the engine;
  - `engine`, `sysproxy`, `tun`, `store` — the engine launch, system-proxy registry writes,
    tunnel routing summary and the profile file;
  - `text` — character-level helpers with their specifications.
- `tests/` — the tests, run against the compiled library.
- `app/` — the Tauri application: windows, threads, sockets, processes and files.
