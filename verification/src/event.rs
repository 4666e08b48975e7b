//! The events that the controller's core and its applications exchange.

use vstd::prelude::*;
use crate::representation::{Device, DeviceID, Host, Link};
use crate::pipeconf::PipeconfID;
use crate::runtime::{MasterArbitrationUpdate, PacketMetadata};

verus! {

/// An event about the network or the controller.
#[derive(Debug)]
pub enum CommonEvents {
    /// A device was connected.
    DeviceAdded(Device),
    /// A device's description changed.
    DeviceUpdate(Device),
    /// A device was disconnected or removed.
    DeviceLost(DeviceID),
    /// The controller became master of a device.
    DeviceMasterUp(DeviceID),
    /// A host was seen.
    HostDetected(Host),
    /// A host is gone.
    HostLost(Host),
    /// A link was seen.
    LinkDetected(Link),
    /// A link is gone.
    LinkLost(Link),
    /// A pipeconf was registered.
    PipeconfAdded(PipeconfID),
    /// A device was given another pipeconf.
    DevicePipeconfUpdate(DeviceID, PipeconfID),
}

/// A packet received from a device.
#[derive(Debug)]
pub struct PacketReceived {
    pub packet: bytes::Bytes,
    pub from: DeviceID,
    pub metadata: Vec<PacketMetadata>,
}

/// What reaches the controller's core from its connections and applications.
#[derive(Debug)]
pub enum CoreEvent {
    /// A packet from a device.
    PacketReceived(PacketReceived),
    /// An event for the applications.
    Event(CommonEvents),
    /// A device answered a bid to be master.
    Bmv2MasterUpdate(DeviceID, MasterArbitrationUpdate),
}

} // verus!
