//! The kinds of error that the controller's core and its connections report.

use vstd::prelude::*;
use crate::representation::DeviceID;

verus! {

/// Why a request to the controller's core failed.
#[derive(Clone, Copy, Debug, PartialEq, Eq, Structural)]
pub enum ContextErrorKind {
    /// The device is not connected.
    DeviceNotConnected { device: DeviceID },
    /// The connection to a device failed.
    ConnectionError,
    /// The entity could not be turned into a P4Runtime entity.
    EntityIsNone,
}

/// Why a connection to a device failed.
#[derive(Clone, Debug, PartialEq, Eq)]
pub enum ConnectionErrorKind {
    /// A gRPC request could not be sent.
    GRPCSendError,
    /// The device's program file could not be read.
    DeviceConfigFileError,
    /// A request could not be built from the pipeconf.
    PipeconfError(String),
}

} // verus!
