use rusty_p4::common::{port_set, CommonStateInner, MergeResult, Notify};
use rusty_p4::event::CommonEvents;
use rusty_p4::pipeconf::PipeconfID;
use rusty_p4::representation::{ConnectPoint, Device, DeviceID, DeviceType, Host, Interface, Link, Port};
use rusty_p4::value::{IpAddr, Ipv4Addr, MAC};

fn port(number: u32, mac: Option<MAC>) -> Port {
    Port {
        name: format!("eth{}", number),
        number,
        interface: Some(Interface { name: format!("if{}", number), ip: None, mac }),
    }
}

fn device(id: u64, ports: Vec<Port>) -> Device {
    Device {
        id: DeviceID(id),
        name: format!("s{}", id),
        ports,
        typ: DeviceType::Bmv2MASTER { socket_addr: "127.0.0.1:50051".to_string(), device_id: 1, pipeconf: PipeconfID(7) },
        device_id: 1,
        index: 0,
    }
}

fn host(last: u8, dev: u64, port: u32) -> Host {
    Host {
        mac: MAC([0, 0, 0, 0, 0, last]),
        ip: Some(IpAddr::V4(Ipv4Addr::new(10, 0, 0, last))),
        location: ConnectPoint { device: DeviceID(dev), port },
    }
}

fn link(a: u64, pa: u32, b: u64, pb: u32) -> Link {
    Link {
        src: ConnectPoint { device: DeviceID(a), port: pa },
        dst: ConnectPoint { device: DeviceID(b), port: pb },
    }
}

#[test]
fn device_added_then_merged() {
    let mut s = CommonStateInner::new();
    let out = s.on_event(&CommonEvents::DeviceAdded(device(1, vec![port(1, None)])));
    assert!(matches!(out.notify, Notify::DeviceAdded(DeviceID(1))));
    assert!(out.follow_ups.is_empty());
    // the same device again, with one port known and one new
    let out = s.on_event(&CommonEvents::DeviceAdded(device(1, vec![port(1, None), port(2, None)])));
    assert!(matches!(out.notify, Notify::Nothing));
    assert_eq!(s.devices.len(), 1);
    let numbers: Vec<u32> = s.devices[0].ports.iter().map(|p| p.number).collect();
    assert_eq!(numbers, vec![1, 2]);
}

#[test]
fn merge_device_results() {
    let mut s = CommonStateInner::new();
    assert!(matches!(s.merge_device(&device(4, vec![])), MergeResult::ADDED(DeviceID(4))));
    assert!(matches!(s.merge_device(&device(4, vec![port(3, None)])), MergeResult::MERGED));
    assert_eq!(s.devices[0].ports.len(), 1);
}

#[test]
fn host_merge_conflict_and_merge() {
    let mut s = CommonStateInner::new();
    let h = host(1, 1, 1);
    assert!(matches!(s.merge_host(&h), MergeResult::ADDED(_)));
    assert!(matches!(s.merge_host(&h), MergeResult::MERGED));
    // same MAC and address, seen elsewhere
    let moved = host(1, 2, 5);
    assert!(matches!(s.merge_host(&moved), MergeResult::CONFLICT));
    assert_eq!(s.hosts.len(), 1);
    assert_eq!(s.hosts[0].location, ConnectPoint { device: DeviceID(1), port: 1 });
}

#[test]
fn host_detected_then_lost_restores() {
    let mut s = CommonStateInner::new();
    s.on_event(&CommonEvents::HostDetected(host(1, 1, 1)));
    let out = s.on_event(&CommonEvents::HostDetected(host(2, 1, 2)));
    assert!(matches!(out.notify, Notify::HostAdded(_)));
    s.on_event(&CommonEvents::HostLost(host(2, 9, 9)));
    assert_eq!(s.hosts.len(), 1);
    assert_eq!(s.hosts[0], host(1, 1, 1));
}

#[test]
fn link_detected_twice_and_lost() {
    let mut s = CommonStateInner::new();
    let l = link(1, 1, 2, 1);
    let out = s.on_event(&CommonEvents::LinkDetected(l));
    assert!(matches!(out.notify, Notify::LinkAdded(_)));
    let out = s.on_event(&CommonEvents::LinkDetected(l));
    assert!(matches!(out.notify, Notify::Nothing));
    assert_eq!(s.links.len(), 1);
    assert!(matches!(s.add_link(l, 1), MergeResult::MERGED));
    s.on_event(&CommonEvents::LinkLost(l));
    assert!(s.links.is_empty());
}

#[test]
fn device_lost_leads_to_host_and_link_losses() {
    let mut s = CommonStateInner::new();
    s.on_event(&CommonEvents::DeviceAdded(device(1, vec![port(1, None)])));
    s.on_event(&CommonEvents::DeviceAdded(device(2, vec![port(1, None)])));
    s.on_event(&CommonEvents::HostDetected(host(1, 1, 1)));
    s.on_event(&CommonEvents::HostDetected(host(2, 2, 1)));
    s.on_event(&CommonEvents::HostDetected(host(3, 1, 2)));
    s.on_event(&CommonEvents::LinkDetected(link(1, 3, 2, 3)));
    s.on_event(&CommonEvents::LinkDetected(link(2, 4, 3, 4)));
    let out = s.on_event(&CommonEvents::DeviceLost(DeviceID(1)));
    assert_eq!(s.devices.len(), 1);
    assert_eq!(out.follow_ups.len(), 3);
    assert!(matches!(out.follow_ups[0], CommonEvents::HostLost(h) if h == host(1, 1, 1)));
    assert!(matches!(out.follow_ups[1], CommonEvents::HostLost(h) if h == host(3, 1, 2)));
    assert!(matches!(out.follow_ups[2], CommonEvents::LinkLost(l) if l == link(1, 3, 2, 3)));
    for e in out.follow_ups.iter() {
        let more = s.on_event(e);
        assert!(more.follow_ups.is_empty());
    }
    assert_eq!(s.hosts.len(), 1);
    assert_eq!(s.links.len(), 1);
    assert!(s.hosts.iter().all(|h| h.location.device != DeviceID(1)));
    // a second loss of the same device changes nothing
    let out = s.on_event(&CommonEvents::DeviceLost(DeviceID(1)));
    assert!(out.follow_ups.is_empty());
    assert_eq!(s.devices.len(), 1);
}

#[test]
fn other_events_change_nothing() {
    let mut s = CommonStateInner::new();
    s.on_event(&CommonEvents::DeviceAdded(device(1, vec![])));
    let out = s.on_event(&CommonEvents::DeviceMasterUp(DeviceID(1)));
    assert!(matches!(out.notify, Notify::Nothing));
    assert_eq!(s.devices.len(), 1);
}

#[test]
fn interface_and_mac_by_connect_point() {
    let mut s = CommonStateInner::new();
    let mac = MAC([1, 2, 3, 4, 5, 6]);
    s.on_event(&CommonEvents::DeviceAdded(device(1, vec![port(1, None), port(2, Some(mac))])));
    let cp = ConnectPoint { device: DeviceID(1), port: 2 };
    assert_eq!(s.get_interface_by_cp(&cp).map(|i| i.name.clone()), Some("if2".to_string()));
    assert_eq!(s.get_mac_by_cp(&cp), Some(mac));
    assert_eq!(s.get_mac_by_cp(&ConnectPoint { device: DeviceID(1), port: 1 }), None);
    assert!(s.get_interface_by_cp(&ConnectPoint { device: DeviceID(1), port: 9 }).is_none());
    assert!(s.get_interface_by_cp(&ConnectPoint { device: DeviceID(2), port: 2 }).is_none());
}

#[test]
fn device_type_master_and_host_addresses() {
    assert!(device(1, vec![]).typ.is_master());
    assert!(!DeviceType::VIRTUAL.is_master());
    let h = host(4, 1, 1);
    assert!(h.has_ipv4_address());
    assert!(!h.has_ipv6_address());
    assert_eq!(h.get_ipv4_address(), Some(Ipv4Addr::new(10, 0, 0, 4)));
    assert_eq!(h.get_ipv6_address(), None);
    // hosts are the same host by MAC and address, wherever they were seen
    assert_eq!(host(4, 1, 1), host(4, 2, 2));
    assert_ne!(host(4, 1, 1), host(5, 1, 1));
}

#[test]
fn device_added_twice_changes_nothing() {
    let mut s = CommonStateInner::new();
    s.on_event(&CommonEvents::DeviceAdded(device(1, vec![port(1, None), port(2, None)])));
    let out = s.on_event(&CommonEvents::DeviceAdded(device(1, vec![port(1, None), port(2, None)])));
    assert!(matches!(out.notify, Notify::Nothing));
    assert_eq!(s.devices.len(), 1);
    assert_eq!(s.devices[0].ports.len(), 2);
}

#[test]
fn ports_are_the_same_by_number_and_interface() {
    let a = port(1, Some(MAC([1; 6])));
    let mut b = port(1, Some(MAC([1; 6])));
    b.name = "other".to_string();
    assert_eq!(a, b);
    assert_ne!(a, port(2, Some(MAC([1; 6]))));
    assert_ne!(a, port(1, None));
    assert_eq!(a.interface, b.interface);
}

#[test]
fn ports_held_once_each() {
    let a = MAC([0, 0, 0, 0, 0, 1]);
    let ps = vec![port(1, Some(a)), port(2, None), port(1, Some(a)), port(1, None)];
    let set = port_set(&ps);
    let got: Vec<(u32, Option<MAC>)> = set.iter().map(|p| (p.number, p.interface.as_ref().unwrap().mac)).collect();
    assert_eq!(got, vec![(1, Some(a)), (2, None), (1, None)]);
    assert!(port_set(&Vec::new()).is_empty());
}
