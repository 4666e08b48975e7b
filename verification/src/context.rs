//! The configuration of the controller's context.

use vstd::prelude::*;

verus! {

/// How the controller's context is set up.
#[derive(Clone, Copy, Debug, PartialEq, Eq, Structural)]
pub struct ContextConfig {
    /// Whether devices are configured from the network configuration.
    pub enable_netconfiguration: bool,
}

impl Default for ContextConfig {
    /// Network configuration off.
    fn default() -> (r: Self)
        ensures
            !r.enable_netconfiguration,
    {
        ContextConfig { enable_netconfiguration: false }
    }
}

} // verus!
