//! Proxy ARP: requests for a known host are answered by the controller,
//! other requests are flooded, and every sender is reported as a host.

use vstd::prelude::*;
use std::sync::Arc;
use crate::arp::{Arp, ArpOp, ETHERNET_TYPE_ARP, arp_bytes, arp_read_from, lemma_arp_write_read};
use crate::buffer::{buf_view, buf_as_slice, buf_from_vec};
use crate::common::{CommonStateInner, CommonStateView, host_known, step_state};
use crate::event::CommonEvents;
use crate::ethernet::Ethernet;
use crate::flow::{Flow, FlowTable, FlowMatch, FlowAction};
use crate::p4info::{first_where, lemma_first_where_step, lemma_first_where_none};
use crate::packet::{Packet, Data, be16, lemma_be16};
use crate::pipeconf::PipeconfID;
use crate::representation::{ConnectPoint, Device, DeviceView, DeviceType, Host, Port};
use crate::value::{MAC, IpAddr, EXACT, Encode, value_spec};
use crate::runtime::MatchSpec;

verus! {

/// Why an ARP packet was not handled.
#[derive(Debug, Clone, Copy, PartialEq, Eq, Structural)]
pub enum ArpError {
    /// The payload is too short to be an ARP message.
    Invalid,
    /// The operation is neither a request nor a reply.
    UnknownOp(u16),
}

/// A packet to send out of a connect point.
#[derive(Debug)]
pub struct PacketOutRequest {
    pub connect_point: ConnectPoint,
    pub packet: bytes::Bytes,
}

/// What handling an ARP packet asks for: a host to report, and packets to send.
#[derive(Debug)]
pub struct ArpActions {
    pub host_detected: Option<Host>,
    pub packet_outs: Vec<PacketOutRequest>,
}

/// The bytes of an Ethernet frame.
pub open spec fn frame(src: Seq<u8>, dst: Seq<u8>, ether_type: u16, payload: Seq<u8>) -> Seq<u8> {
    dst + src + be16(ether_type) + payload
}

/// The host that sent an ARP message, seen at `cp`.
pub open spec fn sender_host(a: Arp, cp: ConnectPoint) -> Host {
    Host { mac: a.sender_mac, ip: Some(IpAddr::V4(a.sender_ip)), location: cp }
}

/// The first known host whose address is the one the message asks for.
pub open spec fn arp_target(hs: Seq<Host>, a: Arp) -> Option<Host> {
    first_where(hs, |x: Host| x.ip == Some(IpAddr::V4(a.target_ip)))
}

/// The reply that the controller sends in the name of host `t`.
pub open spec fn reply_of(a: Arp, t: Host) -> Arp {
    Arp {
        hw_type: 1,
        proto_type: 0x800,
        hw_addr_len: 6,
        proto_addr_len: 4,
        opcode: ArpOp::Reply,
        sender_mac: t.mac,
        sender_ip: a.target_ip,
        target_mac: a.sender_mac,
        target_ip: a.sender_ip,
    }
}

/// The points of the ports of device `id`, but those numbered `skip`.
pub open spec fn port_points(id: crate::representation::DeviceID, ps: Seq<Port>, skip: u32) -> Seq<ConnectPoint>
    decreases ps.len(),
{
    if ps.len() == 0 {
        Seq::empty()
    } else {
        let prev = port_points(id, ps.drop_last(), skip);
        if ps.last().number != skip {
            prev.push(ConnectPoint { device: id, port: ps.last().number })
        } else {
            prev
        }
    }
}

/// The points that a request is flooded to: every port of every device the
/// controller is master of, but the ports numbered as the one it came in on.
pub open spec fn flood_points(ds: Seq<DeviceView>, skip: u32) -> Seq<ConnectPoint>
    decreases ds.len(),
{
    if ds.len() == 0 {
        Seq::empty()
    } else {
        let d = ds.last();
        flood_points(ds.drop_last(), skip) + if !(d.typ is VIRTUAL) {
            port_points(d.id, d.ports, skip)
        } else {
            Seq::empty()
        }
    }
}

/// The same packet `packet` goes out of each of `points`, in order.
pub open spec fn packets_out(outs: Seq<PacketOutRequest>, points: Seq<ConnectPoint>, packet: Seq<u8>) -> bool {
    &&& outs.len() == points.len()
    &&& forall|i: int|
        0 <= i < outs.len() ==> (#[trigger] outs[i]).connect_point == points[i] && buf_view(
            outs[i].packet,
        ) == packet
}

/// What handling the ARP message `a`, carried in `data` and received at
/// `cp`, gives, as a host to report and the packets to send where it is a
/// request, or the error.
pub open spec fn arp_actions_ok(
    a: Arp,
    data: Seq<u8>,
    cp: ConnectPoint,
    s: CommonStateView,
    r: Result<ArpActions, ArpError>,
) -> bool {
    match a.opcode {
        ArpOp::Request => r matches Ok(acts) && {
            let h = sender_host(a, cp);
            &&& acts.host_detected == if host_known(s.hosts, h) {
                None
            } else {
                Some(h)
            }
            &&& match arp_target(s.hosts, a) {
                Some(t) => packets_out(
                    acts.packet_outs@,
                    seq![cp],
                    frame(t.mac.0@, a.sender_mac.0@, 0x806, arp_bytes(reply_of(a, t))),
                ),
                None => packets_out(
                    acts.packet_outs@,
                    flood_points(s.devices, cp.port),
                    frame(a.sender_mac.0@, Seq::new(6, |i: int| 0xffu8), 0x806, data),
                ),
            }
        },
        ArpOp::Reply => r matches Ok(acts) && acts.host_detected == Some(sender_host(a, cp))
            && acts.packet_outs@.len() == 0,
        ArpOp::Unknown(op) => r == Err::<ArpActions, ArpError>(ArpError::UnknownOp(op)),
    }
}

/// The Ethernet frame from `src` to `dst` that carries `payload`.
fn ethernet_frame(src: MAC, dst: MAC, ether_type: u16, payload: &[u8]) -> (r: bytes::Bytes)
    ensures
        buf_view(r) == frame(src.0@, dst.0@, ether_type, payload@),
{
    let e = Ethernet { src: src.0, dst: dst.0, ether_type, payload: Data(payload) };
    let mut v: Vec<u8> = Vec::new();
    e.write_to_buf(&mut v);
    proof {
        assert(v@ =~= frame(src.0@, dst.0@, ether_type, payload@));
    }
    buf_from_vec(v)
}

/// The first known host whose address is `target`.
fn find_arp_target(hosts: &Vec<Host>, a: &Arp) -> (r: Option<Host>)
    ensures
        r == arp_target(hosts@, *a),
{
    let ghost p = |x: Host| x.ip == Some(IpAddr::V4(a.target_ip));
    let mut i: usize = 0;
    while i < hosts.len()
        invariant
            i <= hosts@.len(),
            p == (|x: Host| x.ip == Some(IpAddr::V4(a.target_ip))),
            forall|k: int| 0 <= k < i ==> !p(#[trigger] hosts@[k]),
        decreases hosts@.len() - i,
    {
        let h = hosts[i];
        let hit = match h.ip {
            Some(IpAddr::V4(v4)) => v4 == a.target_ip,
            _ => false,
        };
        if hit {
            proof {
                lemma_first_where_step(hosts@, p, i as int);
                assert(hosts@.skip(i as int)[0] == hosts@[i as int]);
            }
            return Some(h);
        }
        i = i + 1;
    }
    proof {
        lemma_first_where_none(hosts@, p);
    }
    None
}

/// Whether a host that is the same host as `h` is known.
fn knows_host(hosts: &Vec<Host>, h: &Host) -> (r: bool)
    ensures
        r == host_known(hosts@, *h),
{
    let mut i: usize = 0;
    while i < hosts.len()
        invariant
            i <= hosts@.len(),
            forall|k: int| 0 <= k < i ==> !crate::representation::same_host(#[trigger] hosts@[k], *h),
        decreases hosts@.len() - i,
    {
        if hosts[i] == *h {
            return true;
        }
        i = i + 1;
    }
    false
}

/// The points of the ports of `d` not numbered `skip`, appended to `out`.
fn push_port_points(out: &mut Vec<ConnectPoint>, d: &Device, skip: u32)
    ensures
        final(out)@ == old(out)@ + port_points(d.id, d.ports@, skip),
{
    let ghost start = out@;
    let mut j: usize = 0;
    while j < d.ports.len()
        invariant
            j <= d.ports@.len(),
            out@ == start + port_points(d.id, d.ports@.take(j as int), skip),
        decreases d.ports@.len() - j,
    {
        proof {
            assert(d.ports@.take(j + 1).drop_last() =~= d.ports@.take(j as int));
        }
        let n = d.ports[j].number;
        if n != skip {
            out.push(ConnectPoint { device: d.id, port: n });
        }
        j = j + 1;
        proof {
            assert(out@ =~= start + port_points(d.id, d.ports@.take(j as int), skip));
        }
    }
    proof {
        assert(d.ports@.take(d.ports@.len() as int) =~= d.ports@);
    }
}

/// The points a request received on a port numbered `skip` is flooded to.
fn flood(devices: &Vec<Device>, skip: u32) -> (r: Vec<ConnectPoint>)
    ensures
        r@ == flood_points(devices@.map_values(|d: Device| d@), skip),
{
    let ghost ds = devices@.map_values(|d: Device| d@);
    let mut out: Vec<ConnectPoint> = Vec::new();
    let mut i: usize = 0;
    while i < devices.len()
        invariant
            i <= devices@.len(),
            ds == devices@.map_values(|d: Device| d@),
            out@ == flood_points(ds.take(i as int), skip),
        decreases devices@.len() - i,
    {
        let d = &devices[i];
        proof {
            assert(ds.take(i + 1).drop_last() =~= ds.take(i as int));
            assert(ds.take(i + 1).last() == d@);
        }
        if d.typ.is_master() {
            push_port_points(&mut out, d, skip);
        } else {
            proof {
                assert(out@ =~= out@ + Seq::<ConnectPoint>::empty());
            }
        }
        i = i + 1;
    }
    proof {
        assert(ds.take(devices@.len() as int) =~= ds);
    }
    out
}

/// The same packet sent out of each point.
fn packets_to(points: Vec<ConnectPoint>, packet: bytes::Bytes) -> (r: Vec<PacketOutRequest>)
    ensures
        packets_out(r@, points@, buf_view(packet)),
{
    let mut out: Vec<PacketOutRequest> = Vec::new();
    let mut i: usize = 0;
    while i < points.len()
        invariant
            i <= points@.len(),
            packets_out(out@, points@.take(i as int), buf_view(packet)),
        decreases points@.len() - i,
    {
        out.push(PacketOutRequest { connect_point: points[i], packet: packet.clone() });
        i = i + 1;
    }
    proof {
        assert(points@.take(points@.len() as int) =~= points@);
    }
    out
}

/// Handles an ARP message `arp`, carried in `data` and received at `cp`. A
/// request reports its sender as a host unless it is known, and is answered
/// in the name of the known host with the address asked for, or else flooded
/// to the master devices; a reply reports its sender.
pub fn arp_actions(arp: &Arp, data: &[u8], cp: ConnectPoint, state: &CommonStateInner) -> (r: Result<
    ArpActions,
    ArpError,
>)
    ensures
        arp_actions_ok(*arp, data@, cp, state@, r),
{
    match arp.opcode {
        ArpOp::Request => {
            let host = Host { mac: arp.sender_mac, ip: Some(IpAddr::V4(arp.sender_ip)), location: cp };
            let host_detected = if knows_host(&state.hosts, &host) {
                None
            } else {
                Some(host)
            };
            match find_arp_target(&state.hosts, arp) {
                Some(t) => {
                    let reply = Arp {
                        hw_type: 1,
                        proto_type: 0x800,
                        hw_addr_len: 6,
                        proto_addr_len: 4,
                        opcode: ArpOp::Reply,
                        sender_mac: t.mac,
                        sender_ip: arp.target_ip,
                        target_mac: arp.sender_mac,
                        target_ip: arp.sender_ip,
                    };
                    let body = reply.into_bytes();
                    let packet = ethernet_frame(t.mac, arp.sender_mac, ETHERNET_TYPE_ARP, buf_as_slice(&body));
                    let mut points: Vec<ConnectPoint> = Vec::new();
                    points.push(cp);
                    proof {
                        assert(points@ =~= seq![cp]);
                    }
                    Ok(ArpActions { host_detected, packet_outs: packets_to(points, packet) })
                },
                None => {
                    let packet = ethernet_frame(arp.sender_mac, MAC::broadcast(), ETHERNET_TYPE_ARP, data);
                    let points = flood(&state.devices, cp.port);
                    Ok(ArpActions { host_detected, packet_outs: packets_to(points, packet) })
                },
            }
        },
        ArpOp::Reply => {
            let host = Host { mac: arp.sender_mac, ip: Some(IpAddr::V4(arp.sender_ip)), location: cp };
            Ok(ArpActions { host_detected: Some(host), packet_outs: Vec::new() })
        },
        ArpOp::Unknown(op) => Err(ArpError::UnknownOp(op)),
    }
}

/// Handles the payload of an ARP frame received at `cp`: fewer than 8 bytes
/// are no ARP message; otherwise the message read from the payload is
/// handled as `arp_actions` says. 8 to 27 bytes hold no complete message
/// and are left out by `requires`.
pub fn on_arp_received(data: &[u8], cp: ConnectPoint, state: &CommonStateInner) -> (r: Result<
    ArpActions,
    ArpError,
>)
    requires
        data@.len() < 8 || data@.len() >= 28,
    ensures
        data@.len() < 8 ==> r == Err::<ArpActions, ArpError>(ArpError::Invalid),
        data@.len() >= 28 ==> exists|a: Arp| arp_read_from(data@, a) && arp_actions_ok(a, data@, cp, state@, r),
{
    match Arp::from_bytes(data) {
        Some(arp) => arp_actions(&arp, data, cp, state),
        None => Err(ArpError::Invalid),
    }
}

/// The pipeconf whose ARP interceptor a newly added device gets: that of a
/// device the controller is master of.
pub fn interceptor_pipeconf(device: &Device) -> (r: Option<PipeconfID>)
    ensures
        r == (match device.typ {
            DeviceType::StratumMASTER { pipeconf, .. } => Some(pipeconf),
            DeviceType::Bmv2MASTER { pipeconf, .. } => Some(pipeconf),
            DeviceType::VIRTUAL => None,
        }),
{
    match &device.typ {
        DeviceType::StratumMASTER { pipeconf, .. } => Some(*pipeconf),
        DeviceType::Bmv2MASTER { pipeconf, .. } => Some(*pipeconf),
        DeviceType::VIRTUAL => None,
    }
}

/// The flow that sends every ARP packet to the controller: table
/// `IngressPipeImpl.acl` matching the EtherType exactly, action
/// `send_to_cpu`, priority 4000.
pub fn new_arp_interceptor() -> (r: Flow)
    ensures
        r.table.name@ == "IngressPipeImpl.acl"@,
        r.table.matches@.len() == 1,
        r.table.matches@[0].name@ == "hdr.ethernet.ether_type"@,
        value_spec(r.table.matches@[0].value) == MatchSpec::Exact(ETHERNET_TYPE_ARP.spec_encode()),
        r.action.name@ == "send_to_cpu"@,
        r.action.params@.len() == 0,
        r.priority == 4000,
        r.metadata == 0,
{
    let mut matches: Vec<FlowMatch> = Vec::new();
    matches.push(FlowMatch { name: "hdr.ethernet.ether_type", value: EXACT(ETHERNET_TYPE_ARP) });
    Flow {
        table: Arc::new(FlowTable { name: "IngressPipeImpl.acl", matches }),
        action: Arc::new(FlowAction { name: "send_to_cpu", params: Vec::new() }),
        priority: 4000,
        metadata: 0,
    }
}

/// The reply sent for a request goes to the requester's MAC and, read back
/// as ARP, is a reply from the known host that has the asked address, to
/// the requester.
pub proof fn lemma_reply_reads_back(a: Arp, t: Host)
    ensures
        ({
            let f = frame(t.mac.0@, a.sender_mac.0@, 0x806, arp_bytes(reply_of(a, t)));
            &&& f.len() == 42
            &&& f.subrange(0, 6) == a.sender_mac.0@
            &&& f.subrange(6, 12) == t.mac.0@
            &&& arp_read_from(f.skip(14), reply_of(a, t))
            &&& reply_of(a, t).opcode == ArpOp::Reply
            &&& reply_of(a, t).sender_mac == t.mac
            &&& reply_of(a, t).sender_ip == a.target_ip
            &&& reply_of(a, t).target_mac == a.sender_mac
            &&& reply_of(a, t).target_ip == a.sender_ip
        }),
{
    let r = reply_of(a, t);
    let f = frame(t.mac.0@, a.sender_mac.0@, 0x806, arp_bytes(r));
    lemma_be16(0x806);
    lemma_arp_write_read(r);
    assert(f.skip(14) =~= arp_bytes(r));
    assert(f.subrange(0, 6) =~= a.sender_mac.0@);
    assert(f.subrange(6, 12) =~= t.mac.0@);
}

/// A request reports its sender once: after the reported host is applied to
/// the state, the same request reports no host.
pub proof fn lemma_request_reports_sender_once(
    a: Arp,
    data: Seq<u8>,
    cp: ConnectPoint,
    s: CommonStateView,
    first: Result<ArpActions, ArpError>,
    second: Result<ArpActions, ArpError>,
)
    requires
        a.opcode == ArpOp::Request,
        arp_actions_ok(a, data, cp, s, first),
        first matches Ok(acts) && acts.host_detected is Some,
        arp_actions_ok(a, data, cp, step_state(s, CommonEvents::HostDetected(sender_host(a, cp))), second),
    ensures
        second matches Ok(acts) && acts.host_detected is None,
{
    let h = sender_host(a, cp);
    let s1 = step_state(s, CommonEvents::HostDetected(h));
    assert(!host_known(s.hosts, h));
    assert(s1.hosts == s.hosts.push(h));
    assert(crate::representation::same_host(s1.hosts[s.hosts.len() as int], h));
    assert(host_known(s1.hosts, h));
}

} // verus!
