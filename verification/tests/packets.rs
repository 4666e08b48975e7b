use rusty_p4::arp::{Arp, ArpOp, ArpRef};
use rusty_p4::ethernet::Ethernet;
use rusty_p4::packet::{Data, Packet};
use rusty_p4::value::{Ipv4Addr, MAC};

fn arp_bytes() -> Vec<u8> {
    vec![
        0, 1, 0x08, 0x00, 6, 4, 0, 1, // header, request
        1, 2, 3, 4, 5, 6, 10, 0, 0, 1, // sender
        0, 0, 0, 0, 0, 0, 10, 0, 0, 2, // target
    ]
}

#[test]
fn mac_addresses() {
    assert_eq!(MAC::of("00:00:00:00:02:02"), MAC([0, 0, 0, 0, 2, 2]));
    assert_eq!(MAC::of("aa:BB:cc:dd:ee:ff"), MAC([0xaa, 0xbb, 0xcc, 0xdd, 0xee, 0xff]));
    assert!(MAC::broadcast().is_broadcast());
    assert!(!MAC::zero().is_broadcast());
    assert!(MAC([0x33, 0x33, 0, 0, 0, 1]).is_multicast());
    assert!(!MAC([0x01, 0, 0x5e, 0, 0, 1]).is_multicast());
    assert_eq!(MAC::zero(), MAC([0; 6]));
}

#[test]
fn arp_read_and_written_back() {
    let b = arp_bytes();
    let a = Arp::from_bytes(&b).unwrap();
    assert_eq!(a.opcode, ArpOp::Request);
    assert_eq!(a.sender_mac, MAC([1, 2, 3, 4, 5, 6]));
    assert_eq!(a.sender_ip, Ipv4Addr::new(10, 0, 0, 1));
    assert_eq!(a.target_ip, Ipv4Addr::new(10, 0, 0, 2));
    assert_eq!(a.into_bytes().as_ref(), b.as_slice());
    assert!(Arp::from_bytes(&[0, 1, 2]).is_none());
    assert_eq!(ArpOp::from(2u16), ArpOp::Reply);
    assert_eq!(ArpOp::from(9u16), ArpOp::Unknown(9));
    assert_eq!(ArpOp::Unknown(9).code(), 9);
}

#[test]
fn arp_in_place() {
    let b = arp_bytes();
    let a = ArpRef::from_bytes(&b).unwrap();
    assert_eq!(a.get_sender_mac(), MAC([1, 2, 3, 4, 5, 6]));
    assert_eq!(a.get_target_mac(), MAC([0; 6]));
    assert_eq!(a.get_sender_ipv4(), Some(Ipv4Addr::new(10, 0, 0, 1)));
    assert_eq!(a.get_target_ipv4(), Some(Ipv4Addr::new(10, 0, 0, 2)));
    assert_eq!(a.write_to_bytes().as_ref(), b.as_slice());
}

#[test]
fn ethernet_read_and_written_back() {
    let mut frame = vec![0xff, 0xff, 0xff, 0xff, 0xff, 0xff, 1, 2, 3, 4, 5, 6, 0x08, 0x06];
    frame.extend_from_slice(&arp_bytes());
    let e: Ethernet<Data> = Ethernet::from_bytes(&frame).unwrap();
    assert_eq!(e.dst, [0xff; 6]);
    assert_eq!(e.src, [1, 2, 3, 4, 5, 6]);
    assert_eq!(e.ether_type, 0x806);
    assert_eq!(e.payload.0, arp_bytes().as_slice());
    let mut written = Vec::new();
    e.write_to_buf(&mut written);
    assert_eq!(written, frame);
    let inner: Ethernet<ArpRef> = Ethernet::from_bytes(&frame).unwrap();
    assert_eq!(inner.payload.opcode, ArpOp::Request);
    let short: Option<Ethernet<Data>> = Ethernet::from_bytes(&frame[..10]);
    assert!(short.is_none());
}

#[test]
fn arp_size_hint() {
    let a = Arp::from_bytes(&arp_bytes()).unwrap();
    assert_eq!(a.bytes_hint(), 26);
    assert_eq!(a.into_bytes().len(), 28);
}

#[test]
fn payload_free_layers_hint_and_write_themselves() {
    let b = arp_bytes();
    let a = ArpRef::from_bytes(&b).unwrap();
    assert_eq!(a.bytes_hint(), a.self_bytes_hint());
    assert_eq!(a.bytes_hint(), 26);
    let d = Data(&b[..5]);
    assert_eq!(d.bytes_hint(), 5);
    assert_eq!(d.write_to_bytes().as_ref(), &b[..5]);
    assert_eq!(().bytes_hint(), 0);
    assert!(().write_to_bytes().is_empty());
}
