//! The decisions of the controller's core: which devices it connects to,
//! which pipeconfs it knows, and the events that its requests lead to. The
//! connections themselves are made by the caller between the steps.

use vstd::prelude::*;
use crate::bmv2::{Bmv2ConnectionOption, Bmv2MasterUpdateOption, Bmv2Event};
use crate::event::{CommonEvents, CoreEvent, PacketReceived};
use crate::runtime::StreamMessageResponse;
use crate::pipeconf::PipeconfID;
use crate::representation::{Device, DeviceID, DeviceType};
use crate::error::ContextErrorKind;

pub use crate::context::ContextConfig;

verus! {

/// The ids of the devices the core is connected to and of the pipeconfs it
/// knows; neither list holds an id twice.
pub struct CoreState {
    connections: Vec<u64>,
    pipeconfs: Vec<u64>,
}

/// What the core does next to add a device.
#[derive(Debug, Clone, Copy, PartialEq, Eq, Structural)]
pub enum AddDeviceStep {
    /// A device with the same id is connected already: nothing is done.
    AlreadyConnected,
    /// The device's pipeconf is not known: nothing is done.
    PipeconfMissing,
    /// Connect to the BMv2 switch with these options, running this pipeconf.
    ConnectBmv2 { option: Bmv2ConnectionOption, pipeconf: PipeconfID },
    /// Connect to the Stratum switch with this device id of its own and
    /// this id the controller knows it by, running this pipeconf; the
    /// connection's other options are the Stratum connection's defaults.
    ConnectStratum { p4_device_id: u64, inner_device_id: Option<u64>, pipeconf: PipeconfID },
    /// There is nothing to connect to: the device is added as it is.
    Ready,
}

/// No id occurs twice.
pub open spec fn unique<T>(s: Seq<T>) -> bool {
    forall|i: int, j: int| 0 <= i < s.len() && 0 <= j < s.len() && i != j ==> s[i] != s[j]
}

/// The options of a connection to a BMv2 device: its own device id, the id the
/// controller knows it by, and the default master bid.
pub open spec fn connection_option(device: Device, p4_device_id: u64) -> Bmv2ConnectionOption {
    Bmv2ConnectionOption {
        p4_device_id,
        inner_device_id: Some(device.id.0),
        master_update: Some(Bmv2MasterUpdateOption { election_id_high: 0, election_id_low: 1 }),
    }
}

/// What the core does next to add `device`, knowing connections `conns`
/// and pipeconfs `pcs`.
pub open spec fn spec_add_device_step(conns: Seq<u64>, pcs: Seq<u64>, device: Device) -> AddDeviceStep {
    match device.typ {
        DeviceType::Bmv2MASTER { device_id, pipeconf, .. } => if conns.contains(device.id.0) {
            AddDeviceStep::AlreadyConnected
        } else if !pcs.contains(pipeconf.0) {
            AddDeviceStep::PipeconfMissing
        } else {
            AddDeviceStep::ConnectBmv2 { option: connection_option(device, device_id), pipeconf }
        },
        DeviceType::StratumMASTER { device_id, pipeconf, .. } => if conns.contains(device.id.0) {
            AddDeviceStep::AlreadyConnected
        } else if !pcs.contains(pipeconf.0) {
            AddDeviceStep::PipeconfMissing
        } else {
            AddDeviceStep::ConnectStratum { p4_device_id: device_id, inner_device_id: Some(device.id.0), pipeconf }
        },
        DeviceType::VIRTUAL => AddDeviceStep::Ready,
    }
}

/// Whether `id` is among `ids`.
fn contains_id(ids: &Vec<u64>, id: u64) -> (r: bool)
    ensures
        r == ids@.contains(id),
{
    let mut i: usize = 0;
    while i < ids.len()
        invariant
            i <= ids@.len(),
            forall|k: int| 0 <= k < i ==> ids@[k] != id,
        decreases ids@.len() - i,
    {
        if ids[i] == id {
            return true;
        }
        i = i + 1;
    }
    false
}

/// Removes `id` from `ids`, where it is; says whether it was.
fn remove_id(ids: &mut Vec<u64>, id: u64) -> (r: bool)
    requires
        unique(old(ids)@),
    ensures
        r == old(ids)@.contains(id),
        unique(final(ids)@),
        forall|x: u64| final(ids)@.contains(x) <==> old(ids)@.contains(x) && x != id,
{
    let mut i: usize = 0;
    while i < ids.len()
        invariant
            i <= ids@.len(),
            ids@ == old(ids)@,
            unique(ids@),
            forall|k: int| 0 <= k < i ==> ids@[k] != id,
        decreases ids@.len() - i,
    {
        if ids[i] == id {
            let ghost s = ids@;
            ids.remove(i);
            proof {
                assert forall|x: u64| ids@.contains(x) <==> s.contains(x) && x != id by {
                    if ids@.contains(x) {
                        let k = choose|k: int| 0 <= k < ids@.len() && ids@[k] == x;
                        let k0 = if k < i { k } else { k + 1 };
                        assert(s[k0] == x);
                        assert(k0 != i);
                        assert(s[k0] != s[i as int]);
                    }
                    if s.contains(x) && x != id {
                        let k = choose|k: int| 0 <= k < s.len() && s[k] == x;
                        if k < i {
                            assert(ids@[k] == x);
                        } else {
                            assert(ids@[k - 1] == x);
                        }
                    }
                }
                assert forall|a: int, b: int| 0 <= a < ids@.len() && 0 <= b < ids@.len() && a != b implies ids@[a] != ids@[b] by {
                    let a0 = if a < i { a } else { a + 1 };
                    let b0 = if b < i { b } else { b + 1 };
                    assert(ids@[a] == s[a0] && ids@[b] == s[b0]);
                }
            }
            return true;
        }
        i = i + 1;
    }
    false
}

/// Adds `id` to `ids`, which does not hold it.
fn add_id(ids: &mut Vec<u64>, id: u64)
    requires
        unique(old(ids)@),
        !old(ids)@.contains(id),
    ensures
        final(ids)@ == old(ids)@.push(id),
        unique(final(ids)@),
{
    let ghost s = ids@;
    ids.push(id);
    proof {
        assert forall|a: int, b: int| 0 <= a < ids@.len() && 0 <= b < ids@.len() && a != b implies ids@[a] != ids@[b] by {
            if a == s.len() {
                assert(!s.contains(id));
                assert(s[b] != id);
            } else if b == s.len() {
                assert(s[a] != id);
            }
        }
    }
}

impl CoreState {
    /// The devices connected to.
    pub closed spec fn spec_connections(&self) -> Seq<u64> {
        self.connections@
    }

    /// The pipeconfs known.
    pub closed spec fn spec_pipeconfs(&self) -> Seq<u64> {
        self.pipeconfs@
    }

    /// Neither list holds an id twice.
    pub closed spec fn wf(&self) -> bool {
        unique(self.connections@) && unique(self.pipeconfs@)
    }

    /// A core connected to nothing that knows no pipeconf.
    pub fn new() -> (r: CoreState)
        ensures
            r.wf(),
            r.spec_connections().len() == 0,
            r.spec_pipeconfs().len() == 0,
    {
        CoreState { connections: Vec::new(), pipeconfs: Vec::new() }
    }

    /// What to do to add `device`: nothing where a device with its id is
    /// connected or its pipeconf is unknown, connect to a switch the
    /// controller is to be master of, and add any other device as it is.
    pub fn add_device_step(&self, device: &Device) -> (r: AddDeviceStep)
        ensures
            r == spec_add_device_step(self.spec_connections(), self.spec_pipeconfs(), *device),
    {
        match &device.typ {
            DeviceType::Bmv2MASTER { device_id, pipeconf, .. } => {
                if contains_id(&self.connections, device.id.0) {
                    AddDeviceStep::AlreadyConnected
                } else if !contains_id(&self.pipeconfs, pipeconf.0) {
                    AddDeviceStep::PipeconfMissing
                } else {
                    let option = Bmv2ConnectionOption {
                        p4_device_id: *device_id,
                        inner_device_id: Some(device.id.0),
                        master_update: Some(Bmv2MasterUpdateOption::default()),
                    };
                    AddDeviceStep::ConnectBmv2 { option, pipeconf: *pipeconf }
                }
            },
            DeviceType::StratumMASTER { device_id, pipeconf, .. } => {
                if contains_id(&self.connections, device.id.0) {
                    AddDeviceStep::AlreadyConnected
                } else if !contains_id(&self.pipeconfs, pipeconf.0) {
                    AddDeviceStep::PipeconfMissing
                } else {
                    AddDeviceStep::ConnectStratum {
                        p4_device_id: *device_id,
                        inner_device_id: Some(device.id.0),
                        pipeconf: *pipeconf,
                    }
                }
            },
            DeviceType::VIRTUAL => AddDeviceStep::Ready,
        }
    }

    /// Ends the addition of a device whose step was to connect (`connected`
    /// says whether the connection was made) or to add it as it is. A made
    /// connection is recorded and the device is added; a failed one sends
    /// the device's loss and adds nothing. Gives the event to send and the
    /// event the request leads to.
    pub fn add_device_done(&mut self, device: Device, step: AddDeviceStep, connected: bool) -> (r: (
        Option<CommonEvents>,
        Option<CommonEvents>,
    ))
        requires
            old(self).wf(),
            step == spec_add_device_step(old(self).spec_connections(), old(self).spec_pipeconfs(), device),
        ensures
            final(self).wf(),
            final(self).spec_pipeconfs() == old(self).spec_pipeconfs(),
            match step {
                AddDeviceStep::AlreadyConnected | AddDeviceStep::PipeconfMissing => r.0 is None && r.1 is None
                    && final(self).spec_connections() == old(self).spec_connections(),
                AddDeviceStep::Ready => r.0 is None && r.1 == Some(CommonEvents::DeviceAdded(device))
                    && final(self).spec_connections() == old(self).spec_connections(),
                _ => if connected {
                    r.0 is None && r.1 == Some(CommonEvents::DeviceAdded(device))
                        && final(self).spec_connections() == old(self).spec_connections().push(device.id.0)
                } else {
                    r.0 == Some(CommonEvents::DeviceLost(device.id)) && r.1 is None
                        && final(self).spec_connections() == old(self).spec_connections()
                },
            },
    {
        match step {
            AddDeviceStep::AlreadyConnected => (None, None),
            AddDeviceStep::PipeconfMissing => (None, None),
            AddDeviceStep::Ready => (None, Some(CommonEvents::DeviceAdded(device))),
            _ => {
                if connected {
                    add_id(&mut self.connections, device.id.0);
                    (None, Some(CommonEvents::DeviceAdded(device)))
                } else {
                    (Some(CommonEvents::DeviceLost(device.id)), None)
                }
            },
        }
    }

    /// Drops the connection to device `id`, where there is one; the request
    /// leads to the device's loss either way.
    pub fn remove_device(&mut self, id: DeviceID) -> (r: Option<CommonEvents>)
        requires
            old(self).wf(),
        ensures
            final(self).wf(),
            r == Some(CommonEvents::DeviceLost(id)),
            forall|x: u64| final(self).spec_connections().contains(x) <==> old(self).spec_connections().contains(x) && x != id.0,
            final(self).spec_pipeconfs() == old(self).spec_pipeconfs(),
    {
        remove_id(&mut self.connections, id.0);
        Some(CommonEvents::DeviceLost(id))
    }

    /// Registers pipeconf `id`, unless it is known.
    pub fn add_pipeconf(&mut self, id: PipeconfID) -> (r: Option<CommonEvents>)
        requires
            old(self).wf(),
        ensures
            final(self).wf(),
            final(self).spec_connections() == old(self).spec_connections(),
            if old(self).spec_pipeconfs().contains(id.0) {
                r is None && final(self).spec_pipeconfs() == old(self).spec_pipeconfs()
            } else {
                r == Some(CommonEvents::PipeconfAdded(id)) && final(self).spec_pipeconfs()
                    == old(self).spec_pipeconfs().push(id.0)
            },
    {
        if contains_id(&self.pipeconfs, id.0) {
            None
        } else {
            add_id(&mut self.pipeconfs, id.0);
            Some(CommonEvents::PipeconfAdded(id))
        }
    }

    /// Forgets pipeconf `id`, where it is known; that request also leads
    /// to a `PipeconfAdded` event, as the core has no event for a removal.
    pub fn remove_pipeconf(&mut self, id: PipeconfID) -> (r: Option<CommonEvents>)
        requires
            old(self).wf(),
        ensures
            final(self).wf(),
            final(self).spec_connections() == old(self).spec_connections(),
            r == (if old(self).spec_pipeconfs().contains(id.0) {
                Some(CommonEvents::PipeconfAdded(id))
            } else {
                None
            }),
            forall|x: u64| final(self).spec_pipeconfs().contains(x) <==> old(self).spec_pipeconfs().contains(x) && x != id.0,
    {
        if remove_id(&mut self.pipeconfs, id.0) {
            Some(CommonEvents::PipeconfAdded(id))
        } else {
            None
        }
    }

    /// Whether a connected device can be given a known pipeconf: the
    /// pipeconf must be known and the device connected.
    pub fn update_pipeconf_step(&self, device: DeviceID, pipeconf: PipeconfID) -> (r: bool)
        ensures
            r == (self.spec_pipeconfs().contains(pipeconf.0) && self.spec_connections().contains(device.0)),
    {
        contains_id(&self.pipeconfs, pipeconf.0) && contains_id(&self.connections, device.0)
    }

    /// The event that giving a device another pipeconf leads to, where it
    /// could be done and the switch took it.
    pub fn update_pipeconf_done(device: DeviceID, pipeconf: PipeconfID, allowed: bool, applied: bool) -> (r:
        Option<CommonEvents>)
        ensures
            r == (if allowed && applied {
                Some(CommonEvents::DevicePipeconfUpdate(device, pipeconf))
            } else {
                None
            }),
    {
        if allowed && applied {
            Some(CommonEvents::DevicePipeconfUpdate(device, pipeconf))
        } else {
            None
        }
    }
    /// Whether a master bid of device `device` can be handled: the device
    /// must be connected.
    pub fn master_up_step(&self, device: DeviceID) -> (r: Result<(), ContextErrorKind>)
        ensures
            r == (if self.spec_connections().contains(device.0) {
                Ok::<(), ContextErrorKind>(())
            } else {
                Err(ContextErrorKind::DeviceNotConnected { device })
            }),
    {
        if contains_id(&self.connections, device.0) {
            Ok(())
        } else {
            Err(ContextErrorKind::DeviceNotConnected { device })
        }
    }

    /// The event that a handled master bid leads to: the device's master is
    /// up, unless the bid could not be handled.
    pub fn master_up_done(device: DeviceID, handled: bool) -> (r: Option<CommonEvents>)
        ensures
            r == (if handled {
                Some(CommonEvents::DeviceMasterUp(device))
            } else {
                None
            }),
    {
        if handled {
            Some(CommonEvents::DeviceMasterUp(device))
        } else {
            None
        }
    }
}

/// What a message on the stream of device `id`, as the core's context reads
/// that stream, tells the core: the answer to a master bid. Packets and all
/// other messages are dropped there, and tell the core nothing.
pub fn stream_response_event(id: DeviceID, response: StreamMessageResponse) -> (r: Option<CoreEvent>)
    ensures
        match response {
            StreamMessageResponse::Arbitration(m) => r == Some(CoreEvent::Bmv2MasterUpdate(id, m)),
            _ => r is None,
        },
{
    match response {
        StreamMessageResponse::Arbitration(m) => Some(CoreEvent::Bmv2MasterUpdate(id, m)),
        _ => None,
    }
}

/// What the BMv2 connection manager publishes for a message on a device's
/// stream.
#[derive(Debug)]
pub enum ManagerEmit {
    /// An event of the manager, for its subscribers.
    Manager(Bmv2Event),
    /// A packet from the device, for the packet subscribers.
    Packet(PacketReceived),
}

/// What the BMv2 connection manager publishes for a message on the stream of
/// device `id`: an answer to a master bid means the device was added, and a
/// packet is handed on with the device and its metadata; other messages are
/// only logged, and publish nothing.
pub fn manager_stream_event(id: DeviceID, response: StreamMessageResponse) -> (r: Option<ManagerEmit>)
    ensures
        match response {
            StreamMessageResponse::Arbitration(_) => r == Some(ManagerEmit::Manager(Bmv2Event::DeviceAdded)),
            StreamMessageResponse::Packet(p) => r == Some(
                ManagerEmit::Packet(PacketReceived { packet: p.payload, from: id, metadata: p.metadata }),
            ),
            _ => r is None,
        },
{
    match response {
        StreamMessageResponse::Arbitration(_) => Some(ManagerEmit::Manager(Bmv2Event::DeviceAdded)),
        StreamMessageResponse::Packet(p) => Some(
            ManagerEmit::Packet(PacketReceived { packet: p.payload, from: id, metadata: p.metadata }),
        ),
        _ => None,
    }
}

} // verus!
