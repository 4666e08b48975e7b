use rusty_p4::async_app::AsyncAppsBuilder;
use rusty_p4::common::CommonStateInner;
use rusty_p4::core_state::CoreState;
use rusty_p4::error::ContextErrorKind;
use rusty_p4::event::CommonEvents;
use rusty_p4::extended::{packet_dispatch, EtherHooks, NamedHooks, PacketDispatch};
use rusty_p4::representation::{Device, DeviceID};
use rusty_p4::restore::RestoreState;

#[test]
fn async_apps_ordered_by_priority() {
    let mut b: AsyncAppsBuilder<char> = AsyncAppsBuilder::new();
    b.with(5, "a", 'a');
    b.with(7, "b", 'b');
    b.with(5, "c", 'c');
    b.with(3, "d", 'd');
    // highest priority first; among equal priorities the one registered last
    assert_eq!(b.build().names(), vec!["b", "c", "a", "d"]);
    let empty: AsyncAppsBuilder<u8> = AsyncAppsBuilder::new();
    assert!(empty.build().names().is_empty());
}

#[test]
fn named_hooks_install_once() {
    let mut hooks: NamedHooks<u32> = NamedHooks::new();
    assert_eq!(hooks.install("proxy arp", 1), Some(()));
    assert_eq!(hooks.install("link probe", 2), Some(()));
    assert_eq!(hooks.install("proxy arp", 3), None);
    assert_eq!(hooks.len(), 2);
    assert_eq!(hooks.get("proxy arp"), Some(&1));
    assert_eq!(hooks.get("nope"), None);
    assert_eq!(hooks.hook_at(1), ("link probe", &2));
}

#[test]
fn ether_hooks_install_once() {
    let mut hooks: EtherHooks<&str> = EtherHooks::new();
    assert_eq!(hooks.install(0x806, "arp"), Some(()));
    assert_eq!(hooks.install(0x806, "again"), None);
    assert_eq!(hooks.get(0x806), Some(&"arp"));
    assert_eq!(hooks.get(0x800), None);
}

#[test]
fn packets_go_to_their_ether_type() {
    let mut s = CommonStateInner::new();
    s.on_event(&CommonEvents::DeviceAdded(Device::new_bmv2("s1", "a", "p", 1)));
    let id = s.devices[0].id;
    let mut frame = vec![0u8; 12];
    frame.extend_from_slice(&[0x08, 0x06, 1, 2]);
    assert_eq!(packet_dispatch(&s, id, &frame), PacketDispatch::Ethernet(0x806));
    assert_eq!(packet_dispatch(&s, id, &frame[..10]), PacketDispatch::NotEthernet);
    assert_eq!(packet_dispatch(&s, DeviceID(id.0.wrapping_add(1)), &frame), PacketDispatch::UnknownDevice);
}

#[test]
fn saved_devices() {
    let mut r = RestoreState::new();
    r.add_device(Device::new_bmv2("s1", "a", "p", 1));
    r.add_device(Device::new_bmv2("s2", "b", "p", 2));
    r.add_device(Device::new_bmv2("s3", "c", "p", 3));
    let id2 = r.devices[1].id;
    r.remove_device(id2);
    let names: Vec<String> = r.devices.iter().map(|d| d.name.clone()).collect();
    assert_eq!(names, vec!["s1".to_string(), "s3".to_string()]);
    let taken = r.take_devices();
    assert_eq!(taken.len(), 2);
    assert!(r.devices.is_empty());
}

#[test]
fn master_bids() {
    let core = CoreState::new();
    assert_eq!(core.master_up_step(DeviceID(4)), Err(ContextErrorKind::DeviceNotConnected { device: DeviceID(4) }));
    assert!(matches!(CoreState::master_up_done(DeviceID(4), true), Some(CommonEvents::DeviceMasterUp(DeviceID(4)))));
    assert!(CoreState::master_up_done(DeviceID(4), false).is_none());
}
