use rusty_p4::arp::{Arp, ArpOp};
use rusty_p4::common::CommonStateInner;
use rusty_p4::event::CommonEvents;
use rusty_p4::pipeconf::PipeconfID;
use rusty_p4::proxyarp::{
    arp_actions, interceptor_pipeconf, new_arp_interceptor, on_arp_received, ArpError,
};
use rusty_p4::representation::{ConnectPoint, Device, DeviceID, DeviceType, Host, Port};
use rusty_p4::value::{InnerValue, IpAddr, Ipv4Addr, MAC};

fn arp_payload(op: u16, sender_mac: [u8; 6], sender_ip: [u8; 4], target_ip: [u8; 4]) -> Vec<u8> {
    let mut v = vec![0, 1, 0x08, 0x00, 6, 4];
    v.extend_from_slice(&op.to_be_bytes());
    v.extend_from_slice(&sender_mac);
    v.extend_from_slice(&sender_ip);
    v.extend_from_slice(&[0; 6]);
    v.extend_from_slice(&target_ip);
    v
}

fn switch(id: u64, ports: &[u32], typ: DeviceType) -> Device {
    Device {
        id: DeviceID(id),
        name: format!("s{}", id),
        ports: ports.iter().map(|n| Port { name: format!("p{}", n), number: *n, interface: None }).collect(),
        typ,
        device_id: id,
        index: 0,
    }
}

fn master() -> DeviceType {
    DeviceType::Bmv2MASTER { socket_addr: "127.0.0.1:1".to_string(), device_id: 1, pipeconf: PipeconfID(3) }
}

fn state() -> CommonStateInner {
    let mut s = CommonStateInner::new();
    s.on_event(&CommonEvents::DeviceAdded(switch(1, &[1, 2, 3], master())));
    s.on_event(&CommonEvents::DeviceAdded(switch(2, &[1, 4], master())));
    s.on_event(&CommonEvents::DeviceAdded(switch(3, &[5], DeviceType::VIRTUAL)));
    s
}

const SENDER: [u8; 6] = [0, 0, 0, 0, 0, 0xa];

#[test]
fn request_for_unknown_host_is_flooded() {
    let s = state();
    let cp = ConnectPoint { device: DeviceID(1), port: 1 };
    let payload = arp_payload(1, SENDER, [10, 0, 0, 10], [10, 0, 0, 20]);
    let acts = on_arp_received(&payload, cp, &s).unwrap();
    let detected = acts.host_detected.unwrap();
    assert_eq!(detected.mac, MAC(SENDER));
    assert_eq!(detected.ip, Some(IpAddr::V4(Ipv4Addr::new(10, 0, 0, 10))));
    assert_eq!(detected.location, cp);
    // every port of the master devices but those numbered 1
    let points: Vec<(u64, u32)> = acts.packet_outs.iter().map(|p| (p.connect_point.device.0, p.connect_point.port)).collect();
    assert_eq!(points, vec![(1, 2), (1, 3), (2, 4)]);
    let mut frame = vec![0xff; 6];
    frame.extend_from_slice(&SENDER);
    frame.extend_from_slice(&[0x08, 0x06]);
    frame.extend_from_slice(&payload);
    for p in acts.packet_outs.iter() {
        assert_eq!(p.packet.as_ref(), frame.as_slice());
    }
}

#[test]
fn request_for_known_host_is_answered() {
    let mut s = state();
    let target = Host {
        mac: MAC([0, 0, 0, 0, 0, 0x14]),
        ip: Some(IpAddr::V4(Ipv4Addr::new(10, 0, 0, 20))),
        location: ConnectPoint { device: DeviceID(2), port: 4 },
    };
    s.on_event(&CommonEvents::HostDetected(target));
    let sender_host = Host {
        mac: MAC(SENDER),
        ip: Some(IpAddr::V4(Ipv4Addr::new(10, 0, 0, 10))),
        location: ConnectPoint { device: DeviceID(1), port: 1 },
    };
    s.on_event(&CommonEvents::HostDetected(sender_host));
    let cp = ConnectPoint { device: DeviceID(1), port: 1 };
    let payload = arp_payload(1, SENDER, [10, 0, 0, 10], [10, 0, 0, 20]);
    let acts = on_arp_received(&payload, cp, &s).unwrap();
    // the sender is known already
    assert!(acts.host_detected.is_none());
    assert_eq!(acts.packet_outs.len(), 1);
    assert_eq!(acts.packet_outs[0].connect_point, cp);
    let mut expected = SENDER.to_vec();
    expected.extend_from_slice(&[0, 0, 0, 0, 0, 0x14]);
    expected.extend_from_slice(&[0x08, 0x06]);
    expected.extend_from_slice(&[0, 1, 0x08, 0x00, 6, 4, 0, 2]);
    expected.extend_from_slice(&[0, 0, 0, 0, 0, 0x14]);
    expected.extend_from_slice(&[10, 0, 0, 20]);
    expected.extend_from_slice(&SENDER);
    expected.extend_from_slice(&[10, 0, 0, 10]);
    assert_eq!(acts.packet_outs[0].packet.as_ref(), expected.as_slice());
    // read back, the reply is from the known host, to the requester
    let reply = Arp::from_bytes(&acts.packet_outs[0].packet.as_ref()[14..]).unwrap();
    assert_eq!(reply.opcode, ArpOp::Reply);
    assert_eq!(reply.sender_mac, MAC([0, 0, 0, 0, 0, 0x14]));
    assert_eq!(reply.sender_ip, Ipv4Addr::new(10, 0, 0, 20));
    assert_eq!(reply.target_mac, MAC(SENDER));
    assert_eq!(reply.target_ip, Ipv4Addr::new(10, 0, 0, 10));
}

#[test]
fn reply_reports_sender() {
    let s = state();
    let cp = ConnectPoint { device: DeviceID(2), port: 4 };
    let payload = arp_payload(2, SENDER, [10, 0, 0, 10], [10, 0, 0, 20]);
    let acts = on_arp_received(&payload, cp, &s).unwrap();
    assert_eq!(acts.host_detected.map(|h| h.location), Some(cp));
    assert!(acts.packet_outs.is_empty());
}

#[test]
fn unknown_op_and_short_payload_are_errors() {
    let s = state();
    let cp = ConnectPoint { device: DeviceID(1), port: 1 };
    let payload = arp_payload(7, SENDER, [10, 0, 0, 10], [10, 0, 0, 20]);
    assert!(matches!(on_arp_received(&payload, cp, &s), Err(ArpError::UnknownOp(7))));
    assert!(matches!(on_arp_received(&[0, 1, 2], cp, &s), Err(ArpError::Invalid)));
}

#[test]
fn arp_actions_on_parsed_message() {
    let s = state();
    let a = Arp {
        hw_type: 1,
        proto_type: 0x800,
        hw_addr_len: 6,
        proto_addr_len: 4,
        opcode: ArpOp::Reply,
        sender_mac: MAC(SENDER),
        sender_ip: Ipv4Addr::new(10, 0, 0, 10),
        target_mac: MAC([0; 6]),
        target_ip: Ipv4Addr::new(10, 0, 0, 20),
    };
    let acts = arp_actions(&a, &[], ConnectPoint { device: DeviceID(1), port: 3 }, &s).unwrap();
    assert_eq!(acts.host_detected.unwrap().mac, MAC(SENDER));
}

#[test]
fn interceptor_of_devices() {
    assert_eq!(interceptor_pipeconf(&switch(1, &[], master())), Some(PipeconfID(3)));
    assert_eq!(interceptor_pipeconf(&switch(1, &[], DeviceType::VIRTUAL)), None);
    let flow = new_arp_interceptor();
    assert_eq!(flow.table.name, "IngressPipeImpl.acl");
    assert_eq!(flow.action.name, "send_to_cpu");
    assert_eq!(flow.priority, 4000);
    match &flow.table.matches[0].value {
        InnerValue::EXACT(v) => assert_eq!(v.as_ref(), &[0x08, 0x06]),
        other => panic!("unexpected {:?}", other),
    }
}

#[test]
fn sender_reported_once() {
    let mut s = state();
    let cp = ConnectPoint { device: DeviceID(1), port: 1 };
    let payload = arp_payload(1, SENDER, [10, 0, 0, 10], [10, 0, 0, 20]);
    let first = on_arp_received(&payload, cp, &s).unwrap();
    let h = first.host_detected.unwrap();
    s.on_event(&CommonEvents::HostDetected(h));
    let second = on_arp_received(&payload, cp, &s).unwrap();
    assert!(second.host_detected.is_none());
}
