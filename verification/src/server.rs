//! The accepting (host/listen) side of a VPN session.
use crate::cli::{chosen_tap_ip, Cli};
use vstd::prelude::*;

verus! {

/// What the host needs to bring up its end of the tunnel when a peer connects.
#[derive(Debug, Clone)]
pub struct VpnHandler {
    pub device_name: String,
    pub tap_ip: String,
    pub tap_mtu: u16,
}

impl VpnHandler {
    /// The handler for the options the program was started with: their
    /// adapter, the adapter address of the program's role, and their MTU.
    pub fn from_cli(cli: &Cli) -> (h: VpnHandler)
        ensures
            h.device_name@ == cli.device_name@,
            h.tap_ip@ == chosen_tap_ip(
                match cli.tap_ip { Some(s) => Some(s@), None => None },
                cli.connect is Some,
            ),
            h.tap_mtu == cli.tap_mtu,
    {
        VpnHandler { device_name: cli.device_name.clone(), tap_ip: cli.tap_ip(), tap_mtu: cli.tap_mtu }
    }
}

} // verus!
