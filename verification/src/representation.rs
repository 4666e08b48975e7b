//! The network as the controller sees it: devices with their ports,
//! connect points, links between them, and hosts.

use vstd::prelude::*;
use crate::value::{MAC, IpAddr, Ipv4Addr, Ipv6Addr};
use crate::pipeconf::PipeconfID;
use crate::util::{hash, str_hash};

verus! {

/// The id of a device: the hash of its name.
#[derive(Clone, Copy, Debug, PartialEq, Eq, Structural, Hash)]
pub struct DeviceID(pub u64);

/// How the controller reaches a device.
#[derive(Debug)]
pub enum DeviceType {
    /// A Stratum switch that the controller is master of.
    StratumMASTER { socket_addr: String, device_id: u64, pipeconf: PipeconfID },
    /// A BMv2 switch that the controller is master of.
    Bmv2MASTER { socket_addr: String, device_id: u64, pipeconf: PipeconfID },
    /// A device that is not connected.
    VIRTUAL,
}

impl DeviceType {
    /// Whether the controller is master of the device.
    pub fn is_master(&self) -> (r: bool)
        ensures
            r == !(self is VIRTUAL),
    {
        match self {
            DeviceType::Bmv2MASTER { .. } => true,
            DeviceType::StratumMASTER { .. } => true,
            _ => false,
        }
    }
}

impl Clone for DeviceType {
    fn clone(&self) -> (r: Self)
        ensures
            r == *self,
    {
        match self {
            DeviceType::StratumMASTER { socket_addr, device_id, pipeconf } => DeviceType::StratumMASTER {
                socket_addr: socket_addr.clone(),
                device_id: *device_id,
                pipeconf: *pipeconf,
            },
            DeviceType::Bmv2MASTER { socket_addr, device_id, pipeconf } => DeviceType::Bmv2MASTER {
                socket_addr: socket_addr.clone(),
                device_id: *device_id,
                pipeconf: *pipeconf,
            },
            DeviceType::VIRTUAL => DeviceType::VIRTUAL,
        }
    }
}

/// A network interface of a port.
#[derive(Debug, Eq, Hash)]
pub struct Interface {
    pub name: String,
    pub ip: Option<IpAddr>,
    pub mac: Option<MAC>,
}

impl Clone for Interface {
    fn clone(&self) -> (r: Self)
        ensures
            r == *self,
    {
        Interface { name: self.name.clone(), ip: self.ip, mac: self.mac }
    }
}

/// A port of a device.
#[derive(Debug, Eq, Hash)]
pub struct Port {
    pub name: String,
    pub number: u32,
    pub interface: Option<Interface>,
}

impl Clone for Port {
    fn clone(&self) -> (r: Self)
        ensures
            r == *self,
    {
        let interface = match &self.interface {
            Some(i) => Some(i.clone()),
            None => None,
        };
        Port { name: self.name.clone(), number: self.number, interface }
    }
}

/// Two interfaces are the same: same name, address and MAC.
pub open spec fn same_interface(a: Interface, b: Interface) -> bool {
    a.name@ == b.name@ && a.ip == b.ip && a.mac == b.mac
}

/// Two optional interfaces are the same.
pub open spec fn same_opt_interface(a: Option<Interface>, b: Option<Interface>) -> bool {
    match (a, b) {
        (Some(x), Some(y)) => same_interface(x, y),
        (None, None) => true,
        _ => false,
    }
}

/// Two ports are the same port: same number and same interface; the name
/// does not count.
pub open spec fn same_port(a: Port, b: Port) -> bool {
    a.number == b.number && same_opt_interface(a.interface, b.interface)
}

/// Whether two optional MACs are equal.
fn mac_opt_eq(a: &Option<MAC>, b: &Option<MAC>) -> (r: bool)
    ensures
        r == (*a == *b),
{
    match (a, b) {
        (Some(x), Some(y)) => {
            let e = x == y;
            proof {
                if e {
                    assert(x.0 =~= y.0);
                }
            }
            e
        },
        (None, None) => true,
        _ => false,
    }
}

/// Whether two optional IP addresses are equal.
fn ip_opt_eq(a: &Option<IpAddr>, b: &Option<IpAddr>) -> (r: bool)
    ensures
        r == (*a == *b),
{
    match (a, b) {
        (Some(x), Some(y)) => *x == *y,
        (None, None) => true,
        _ => false,
    }
}

impl PartialEq for Interface {
    fn eq(&self, other: &Interface) -> (r: bool) {
        self.name == other.name && ip_opt_eq(&self.ip, &other.ip) && mac_opt_eq(&self.mac, &other.mac)
    }
}

impl vstd::std_specs::cmp::PartialEqSpecImpl for Interface {
    open spec fn obeys_eq_spec() -> bool {
        true
    }

    open spec fn eq_spec(&self, other: &Interface) -> bool {
        same_interface(*self, *other)
    }
}

impl PartialEq for Port {
    fn eq(&self, other: &Port) -> (r: bool) {
        port_eq(self, other)
    }
}

impl vstd::std_specs::cmp::PartialEqSpecImpl for Port {
    open spec fn obeys_eq_spec() -> bool {
        true
    }

    open spec fn eq_spec(&self, other: &Port) -> bool {
        same_port(*self, *other)
    }
}

/// Whether two ports are the same port.
pub fn port_eq(a: &Port, b: &Port) -> (r: bool)
    ensures
        r == same_port(*a, *b),
{
    if a.number != b.number {
        return false;
    }
    match (&a.interface, &b.interface) {
        (Some(x), Some(y)) => x.name == y.name && ip_opt_eq(&x.ip, &y.ip) && mac_opt_eq(&x.mac, &y.mac),
        (None, None) => true,
        _ => false,
    }
}

/// A device known to the controller.
#[derive(Debug)]
pub struct Device {
    pub id: DeviceID,
    pub name: String,
    pub ports: Vec<Port>,
    pub typ: DeviceType,
    pub device_id: u64,
    pub index: usize,
}

/// What a device holds, with its ports as a sequence.
pub struct DeviceView {
    pub id: DeviceID,
    pub name: String,
    pub ports: Seq<Port>,
    pub typ: DeviceType,
    pub device_id: u64,
    pub index: usize,
}

impl View for Device {
    type V = DeviceView;

    open spec fn view(&self) -> DeviceView {
        DeviceView {
            id: self.id,
            name: self.name,
            ports: self.ports@,
            typ: self.typ,
            device_id: self.device_id,
            index: self.index,
        }
    }
}

/// No two ports of the sequence are the same port.
pub open spec fn ports_unique(ps: Seq<Port>) -> bool {
    forall|i: int, j: int| 0 <= i < ps.len() && 0 <= j < ps.len() && i != j ==> !same_port(#[trigger] ps[i], #[trigger] ps[j])
}

impl Device {
    /// The ports hold no port twice, as a set of ports would.
    pub open spec fn wf(&self) -> bool {
        ports_unique(self.ports@)
    }

    /// A copy of the device.
    pub fn duplicate(&self) -> (r: Device)
        ensures
            r@ == self@,
    {
        let mut ports: Vec<Port> = Vec::new();
        let mut i: usize = 0;
        while i < self.ports.len()
            invariant
                i <= self.ports@.len(),
                ports@ == self.ports@.take(i as int),
            decreases self.ports@.len() - i,
        {
            ports.push(self.ports[i].clone());
            i = i + 1;
            proof {
                assert(ports@ =~= self.ports@.take(i as int));
            }
        }
        proof {
            assert(self.ports@.take(self.ports@.len() as int) =~= self.ports@);
        }
        Device {
            id: self.id,
            name: self.name.clone(),
            ports,
            typ: self.typ.clone(),
            device_id: self.device_id,
            index: self.index,
        }
    }

    /// A BMv2 switch named `name` at `address`, running the pipeconf named
    /// `pipeconf`; ids are the hashes of the names, and it has no ports yet.
    pub fn new_bmv2(name: &str, address: &str, pipeconf: &str, device_id: u64) -> (r: Device)
        ensures
            r.id == DeviceID(str_hash(name@)),
            r.name@ == name@,
            r.ports@.len() == 0,
            r.typ matches DeviceType::Bmv2MASTER { socket_addr, device_id: d, pipeconf: p } && socket_addr@
                == address@ && d == device_id && p == PipeconfID(str_hash(pipeconf@)),
            r.device_id == device_id,
            r.index == 0,
    {
        let id = hash(name);
        Device {
            id: DeviceID(id),
            name: name.to_owned(),
            ports: Vec::new(),
            typ: DeviceType::Bmv2MASTER {
                socket_addr: address.to_owned(),
                device_id,
                pipeconf: PipeconfID(hash(pipeconf)),
            },
            device_id,
            index: 0,
        }
    }

    /// A Stratum switch named `name` at `address`, running the pipeconf named
    /// `pipeconf`; ids are the hashes of the names, and it has no ports yet.
    pub fn new_stratum_bmv2(name: &str, address: &str, pipeconf: &str, device_id: u64) -> (r: Device)
        ensures
            r.id == DeviceID(str_hash(name@)),
            r.name@ == name@,
            r.ports@.len() == 0,
            r.typ matches DeviceType::StratumMASTER { socket_addr, device_id: d, pipeconf: p } && socket_addr@
                == address@ && d == device_id && p == PipeconfID(str_hash(pipeconf@)),
            r.device_id == device_id,
            r.index == 0,
    {
        let id = hash(name);
        Device {
            id: DeviceID(id),
            name: name.to_owned(),
            ports: Vec::new(),
            typ: DeviceType::StratumMASTER {
                socket_addr: address.to_owned(),
                device_id,
                pipeconf: PipeconfID(hash(pipeconf)),
            },
            device_id,
            index: 0,
        }
    }
}

/// A port of a device.
#[derive(Clone, Copy, Debug, PartialEq, Eq, Structural, Hash)]
pub struct ConnectPoint {
    pub device: DeviceID,
    pub port: u32,
}

/// A link from one connect point to another.
#[derive(Clone, Copy, Debug, PartialEq, Eq, Structural, Hash)]
pub struct Link {
    pub src: ConnectPoint,
    pub dst: ConnectPoint,
}

/// A host, seen at a connect point.
#[derive(Clone, Copy, Debug, Eq, Hash)]
pub struct Host {
    pub mac: MAC,
    pub ip: Option<IpAddr>,
    pub location: ConnectPoint,
}

/// Two hosts are the same host: same MAC and same address; where they were
/// seen does not count.
pub open spec fn same_host(a: Host, b: Host) -> bool {
    a.mac == b.mac && a.ip == b.ip
}

impl PartialEq for Host {
    fn eq(&self, other: &Host) -> (r: bool) {
        let m = self.mac == other.mac;
        proof {
            if m {
                assert(self.mac.0 =~= other.mac.0);
            }
        }
        m && ip_opt_eq(&self.ip, &other.ip)
    }
}

impl vstd::std_specs::cmp::PartialEqSpecImpl for Host {
    open spec fn obeys_eq_spec() -> bool {
        true
    }

    open spec fn eq_spec(&self, other: &Host) -> bool {
        same_host(*self, *other)
    }
}

impl Host {
    /// The host's IPv4 address, if it has one.
    pub fn get_ipv4_address(&self) -> (r: Option<Ipv4Addr>)
        ensures
            r == (match self.ip {
                Some(IpAddr::V4(v4)) => Some(v4),
                _ => None,
            }),
    {
        match self.ip {
            Some(IpAddr::V4(v4)) => Some(v4),
            _ => None,
        }
    }

    /// The host's IPv6 address, if it has one.
    pub fn get_ipv6_address(&self) -> (r: Option<Ipv6Addr>)
        ensures
            r == (match self.ip {
                Some(IpAddr::V6(v6)) => Some(v6),
                _ => None,
            }),
    {
        match self.ip {
            Some(IpAddr::V6(v6)) => Some(v6),
            _ => None,
        }
    }

    /// Whether the host has an IPv4 address.
    pub fn has_ipv4_address(&self) -> (r: bool)
        ensures
            r == (self.ip matches Some(IpAddr::V4(_))),
    {
        match self.ip {
            Some(IpAddr::V4(_)) => true,
            _ => false,
        }
    }

    /// Whether the host has an IPv6 address.
    pub fn has_ipv6_address(&self) -> (r: bool)
        ensures
            r == (self.ip matches Some(IpAddr::V6(_))),
    {
        match self.ip {
            Some(IpAddr::V6(_)) => true,
            _ => false,
        }
    }
}

} // verus!
