//! Configuration of the engine and its validation.
//!
//! The process runs in exactly one of two modes. In relay (server) mode only
//! the local UDP bind address is needed. In point-to-point mode the virtual
//! interface's address and the remote UDP address must both be present;
//! either one missing is a fatal configuration error, reported before any
//! socket or interface is created.

use vstd::prelude::*;

verus! {

/// What the process was started with: the mode selector, the local UDP bind
/// address, and the two fields that only point-to-point mode requires.
pub struct Config {
    /// True selects relay (server) mode; false selects point-to-point mode.
    pub server: bool,
    /// Address to assign to the virtual interface (point-to-point only).
    pub tun_ip: Option<String>,
    /// Local address the UDP socket binds to.
    pub udp_local_ip: String,
    /// Remote UDP endpoint to tunnel to (point-to-point only).
    pub udp_remote_ip: Option<String>,
}

/// The two ways a configuration can be fatally incomplete.
#[derive(Clone, Copy, Debug, PartialEq, Eq, Structural)]
pub enum ConfigError {
    /// Point-to-point mode without an address for the virtual interface.
    MissingTunAddress,
    /// Point-to-point mode without a remote UDP endpoint.
    MissingRemoteAddress,
}

impl Config {
    /// A configuration is complete when relay mode was selected, or when
    /// both point-to-point fields are present.
    pub open spec fn is_complete(&self) -> bool {
        self.server || (self.tun_ip is Some && self.udp_remote_ip is Some)
    }
}

/// Checks that the configuration is complete for the selected mode. The
/// missing interface address is reported first, as startup checks the two
/// fields in that order.
pub fn validate(config: &Config) -> (r: Result<(), ConfigError>)
    ensures
        r is Ok <==> config.is_complete(),
        r == Err::<(), ConfigError>(ConfigError::MissingTunAddress) <==> !config.server
            && config.tun_ip is None,
        r == Err::<(), ConfigError>(ConfigError::MissingRemoteAddress) <==> !config.server
            && config.tun_ip is Some && config.udp_remote_ip is None,
{
    if !config.server && config.tun_ip.is_none() {
        return Err(ConfigError::MissingTunAddress);
    }
    if !config.server && config.udp_remote_ip.is_none() {
        return Err(ConfigError::MissingRemoteAddress);
    }
    Ok(())
}

} // verus!
