//! The network state that applications share: the devices with their ports,
//! the hosts and the links the controller knows, and how each event changes
//! them.

use vstd::prelude::*;
use crate::representation::{
    Device, DeviceView, DeviceID, Port, Host, Link, ConnectPoint, Interface, same_port, same_host,
    ports_unique, port_eq,
};
use crate::event::CommonEvents;
use crate::value::MAC;
use crate::p4info::{first_where, lemma_first_where_step, lemma_first_where_none};

verus! {

/// What merging an item into the state did.
#[derive(Debug)]
pub enum MergeResult<T> {
    /// The item was new and was added.
    ADDED(T),
    /// The item was known and what it brought was merged in.
    MERGED,
    /// The item contradicts what is known and was ignored.
    CONFLICT,
}

/// The devices, hosts and links the controller knows. No two devices share
/// an id, no two hosts share their MAC and address, and no link occurs twice.
pub struct CommonStateInner {
    pub devices: Vec<Device>,
    pub hosts: Vec<Host>,
    pub links: Vec<Link>,
}

/// What the state holds, each device by its view.
#[verifier::ext_equal]
pub struct CommonStateView {
    pub devices: Seq<DeviceView>,
    pub hosts: Seq<Host>,
    pub links: Seq<Link>,
}

impl View for CommonStateInner {
    type V = CommonStateView;

    open spec fn view(&self) -> CommonStateView {
        CommonStateView {
            devices: self.devices@.map_values(|d: Device| d@),
            hosts: self.hosts@,
            links: self.links@,
        }
    }
}

/// No two devices share an id, every device's ports are unique, no two hosts
/// are the same host, and no link occurs twice.
pub open spec fn state_wf(s: CommonStateView) -> bool {
    &&& forall|i: int, j: int|
        0 <= i < s.devices.len() && 0 <= j < s.devices.len() && i != j ==> (#[trigger] s.devices[i]).id
            != (#[trigger] s.devices[j]).id
    &&& forall|i: int| 0 <= i < s.devices.len() ==> ports_unique(#[trigger] s.devices[i].ports)
    &&& forall|i: int, j: int|
        0 <= i < s.hosts.len() && 0 <= j < s.hosts.len() && i != j ==> !same_host(
            #[trigger] s.hosts[i],
            #[trigger] s.hosts[j],
        )
    &&& forall|i: int, j: int|
        0 <= i < s.links.len() && 0 <= j < s.links.len() && i != j ==> #[trigger] s.links[i]
            != #[trigger] s.links[j]
}

/// A port that is the same port as `p` is among `ps`.
pub open spec fn has_port(ps: Seq<Port>, p: Port) -> bool {
    exists|i: int| 0 <= i < ps.len() && same_port(#[trigger] ps[i], p)
}

/// `ps` with `p` added, unless the same port is there already.
pub open spec fn add_port(ps: Seq<Port>, p: Port) -> Seq<Port> {
    if has_port(ps, p) {
        ps
    } else {
        ps.push(p)
    }
}

/// `ps` with each port of `new` added in turn.
pub open spec fn merge_ports(ps: Seq<Port>, new: Seq<Port>) -> Seq<Port>
    decreases new.len(),
{
    if new.len() == 0 {
        ps
    } else {
        add_port(merge_ports(ps, new.drop_last()), new.last())
    }
}

/// A device with the id `id` is among `ds`.
pub open spec fn has_device(ds: Seq<DeviceView>, id: DeviceID) -> bool {
    exists|i: int| 0 <= i < ds.len() && (#[trigger] ds[i]).id == id
}

/// `d` with the ports of `info` merged in, where it is the device `info` describes.
pub open spec fn merged_into(d: DeviceView, info: DeviceView) -> DeviceView {
    if d.id == info.id {
        DeviceView {
            id: d.id,
            name: d.name,
            ports: merge_ports(d.ports, info.ports),
            typ: d.typ,
            device_id: d.device_id,
            index: d.index,
        }
    } else {
        d
    }
}

/// The devices after `info` is merged: a known device gains the new ports,
/// an unknown one is added as it is.
pub open spec fn spec_merge_device(ds: Seq<DeviceView>, info: DeviceView) -> Seq<DeviceView> {
    if has_device(ds, info.id) {
        ds.map_values(|d: DeviceView| merged_into(d, info))
    } else {
        ds.push(info)
    }
}

/// A host that is the same host as `h` is among `hs`.
pub open spec fn host_known(hs: Seq<Host>, h: Host) -> bool {
    exists|i: int| 0 <= i < hs.len() && same_host(#[trigger] hs[i], h)
}

/// A host that is the same host as `h` was seen somewhere else.
pub open spec fn host_conflict(hs: Seq<Host>, h: Host) -> bool {
    exists|i: int| 0 <= i < hs.len() && same_host(#[trigger] hs[i], h) && hs[i].location != h.location
}

/// Hosts that are not the same host as `h`.
pub open spec fn not_same_host(h: Host) -> spec_fn(Host) -> bool {
    |x: Host| !same_host(x, h)
}

/// Links other than `l`.
pub open spec fn not_link(l: Link) -> spec_fn(Link) -> bool {
    |x: Link| x != l
}

/// Devices whose id is not `id`.
pub open spec fn not_device(id: DeviceID) -> spec_fn(DeviceView) -> bool {
    |d: DeviceView| d.id != id
}

/// Hosts seen on the device `id`.
pub open spec fn host_at(id: DeviceID) -> spec_fn(Host) -> bool {
    |h: Host| h.location.device == id
}

/// Links with an end on the device `id`.
pub open spec fn link_at(id: DeviceID) -> spec_fn(Link) -> bool {
    |l: Link| l.src.device == id || l.dst.device == id
}

/// The loss of each host of `hs`, in order.
pub open spec fn host_losses(hs: Seq<Host>) -> Seq<CommonEvents> {
    hs.map_values(|h: Host| CommonEvents::HostLost(h))
}

/// The loss of each link of `ls`, in order.
pub open spec fn link_losses(ls: Seq<Link>) -> Seq<CommonEvents> {
    ls.map_values(|l: Link| CommonEvents::LinkLost(l))
}

/// The events that follow the loss of device `id`: each host seen on it is
/// lost, then each link with an end on it, in the order they are stored.
pub open spec fn lost_events(s: CommonStateView, id: DeviceID) -> Seq<CommonEvents> {
    host_losses(s.hosts.filter(host_at(id))) + link_losses(s.links.filter(link_at(id)))
}

/// What an event asks the applications to be told of.
#[derive(Debug, Clone, Copy)]
pub enum Notify {
    /// Nothing new.
    Nothing,
    /// A device was added; the device-added hooks run on it.
    DeviceAdded(DeviceID),
    /// A host was added.
    HostAdded(Host),
    /// A link was added.
    LinkAdded(Link),
}

/// What handling an event gives: whom to tell, and the events to send next.
pub struct EventOutcome {
    pub notify: Notify,
    pub follow_ups: Vec<CommonEvents>,
}

/// The state after an event.
pub open spec fn step_state(s: CommonStateView, e: CommonEvents) -> CommonStateView {
    match e {
        CommonEvents::DeviceAdded(d) => CommonStateView {
            devices: spec_merge_device(s.devices, d@),
            ..s
        },
        CommonEvents::HostDetected(h) => if host_known(s.hosts, h) {
            s
        } else {
            CommonStateView { hosts: s.hosts.push(h), ..s }
        },
        CommonEvents::LinkDetected(l) => if s.links.contains(l) {
            s
        } else {
            CommonStateView { links: s.links.push(l), ..s }
        },
        CommonEvents::DeviceLost(id) => CommonStateView {
            devices: s.devices.filter(not_device(id)),
            ..s
        },
        CommonEvents::LinkLost(l) => CommonStateView { links: s.links.filter(not_link(l)), ..s },
        CommonEvents::HostLost(h) => CommonStateView { hosts: s.hosts.filter(not_same_host(h)), ..s },
        _ => s,
    }
}

/// Whom an event asks to be told: a new device, a new host, a new link.
pub open spec fn step_notify(s: CommonStateView, e: CommonEvents) -> Notify {
    match e {
        CommonEvents::DeviceAdded(d) => if has_device(s.devices, d.id) {
            Notify::Nothing
        } else {
            Notify::DeviceAdded(d.id)
        },
        CommonEvents::HostDetected(h) => if host_known(s.hosts, h) {
            Notify::Nothing
        } else {
            Notify::HostAdded(h)
        },
        CommonEvents::LinkDetected(l) => if s.links.contains(l) {
            Notify::Nothing
        } else {
            Notify::LinkAdded(l)
        },
        _ => Notify::Nothing,
    }
}

/// The events that an event leads to: the loss of a known device leads to
/// the loss of its hosts and links.
pub open spec fn step_follow_ups(s: CommonStateView, e: CommonEvents) -> Seq<CommonEvents> {
    match e {
        CommonEvents::DeviceLost(id) => if has_device(s.devices, id) {
            lost_events(s, id)
        } else {
            Seq::empty()
        },
        _ => Seq::empty(),
    }
}

/// The event carries no device with a port twice.
pub open spec fn event_wf(e: CommonEvents) -> bool {
    match e {
        CommonEvents::DeviceAdded(d) => d.wf(),
        CommonEvents::DeviceUpdate(d) => d.wf(),
        _ => true,
    }
}

/// Keeping what satisfies `p`, where everything does, keeps everything.
pub proof fn lemma_filter_all<A>(s: Seq<A>, p: spec_fn(A) -> bool)
    requires
        forall|j: int| 0 <= j < s.len() ==> p(#[trigger] s[j]),
    ensures
        s.filter(p) == s,
    decreases s.len(),
{
    reveal(Seq::filter);
    if s.len() > 0 {
        lemma_filter_all(s.drop_last(), p);
        assert(s.drop_last().push(s.last()) =~= s);
    }
}

/// Keeping what satisfies `p`, where only the element at `i` does not,
/// removes that element.
pub proof fn lemma_filter_remove_one<A>(s: Seq<A>, p: spec_fn(A) -> bool, i: int)
    requires
        0 <= i < s.len(),
        !p(s[i]),
        forall|j: int| 0 <= j < s.len() && j != i ==> p(#[trigger] s[j]),
    ensures
        s.filter(p) == s.remove(i),
    decreases s.len(),
{
    reveal(Seq::filter);
    if i == s.len() - 1 {
        lemma_filter_all(s.drop_last(), p);
        assert(s.remove(i) =~= s.drop_last());
    } else {
        lemma_filter_remove_one(s.drop_last(), p, i);
        assert(s.remove(i) =~= s.drop_last().remove(i).push(s.last()));
    }
}

/// Keeping what satisfies `p` from `s` with `x` pushed, where `x` does not
/// satisfy it, is keeping it from `s`.
pub proof fn lemma_filter_push_dropped<A>(s: Seq<A>, x: A, p: spec_fn(A) -> bool)
    requires
        !p(x),
    ensures
        s.push(x).filter(p) == s.filter(p),
{
    reveal(Seq::filter);
    assert(s.push(x).drop_last() =~= s);
}

/// Adding a port keeps the ports unique.
proof fn lemma_add_port_unique(ps: Seq<Port>, p: Port)
    requires
        ports_unique(ps),
    ensures
        ports_unique(add_port(ps, p)),
{
    if !has_port(ps, p) {
        let q = ps.push(p);
        assert forall|i: int, j: int| 0 <= i < q.len() && 0 <= j < q.len() && i != j implies !same_port(
            #[trigger] q[i],
            #[trigger] q[j],
        ) by {
            if i == ps.len() {
                assert(!same_port(ps[j], p));
            } else if j == ps.len() {
                assert(!same_port(ps[i], p));
            } else {
                assert(q[i] == ps[i] && q[j] == ps[j]);
            }
        }
    }
}

/// Merging ports keeps the ports unique.
pub proof fn lemma_merge_ports_unique(ps: Seq<Port>, new: Seq<Port>)
    requires
        ports_unique(ps),
    ensures
        ports_unique(merge_ports(ps, new)),
    decreases new.len(),
{
    if new.len() > 0 {
        lemma_merge_ports_unique(ps, new.drop_last());
        lemma_add_port_unique(merge_ports(ps, new.drop_last()), new.last());
    }
}

/// Whether one of `ps` is the same port as `p`.
fn contains_port(ps: &Vec<Port>, p: &Port) -> (r: bool)
    ensures
        r == has_port(ps@, *p),
{
    let mut i: usize = 0;
    while i < ps.len()
        invariant
            i <= ps@.len(),
            forall|j: int| 0 <= j < i ==> !same_port(#[trigger] ps@[j], *p),
        decreases ps@.len() - i,
    {
        if port_eq(&ps[i], p) {
            return true;
        }
        i = i + 1;
    }
    false
}

/// Adds each port of `new` that is not among `ports` yet, in order.
fn merge_ports_into(ports: &mut Vec<Port>, new: &Vec<Port>)
    ensures
        final(ports)@ == merge_ports(old(ports)@, new@),
{
    let ghost start = ports@;
    let mut i: usize = 0;
    while i < new.len()
        invariant
            i <= new@.len(),
            ports@ == merge_ports(start, new@.take(i as int)),
        decreases new@.len() - i,
    {
        proof {
            assert(new@.take(i + 1).drop_last() =~= new@.take(i as int));
            assert(new@.take(i + 1).last() == new@[i as int]);
        }
        if !contains_port(ports, &new[i]) {
            ports.push(new[i].clone());
        }
        i = i + 1;
    }
    proof {
        assert(new@.take(new@.len() as int) =~= new@);
    }
}

/// The ports of `ports` as a set of ports holds them: each port once, where
/// it is first given.
pub fn port_set(ports: &Vec<Port>) -> (r: Vec<Port>)
    ensures
        r@ == merge_ports(Seq::empty(), ports@),
        ports_unique(r@),
{
    let mut r: Vec<Port> = Vec::new();
    merge_ports_into(&mut r, ports);
    proof {
        lemma_merge_ports_unique(Seq::empty(), ports@);
    }
    r
}

/// The position of the device `id` among `ds`.
fn find_device(ds: &Vec<Device>, id: DeviceID) -> (r: Option<usize>)
    ensures
        r matches Some(i) ==> i < ds@.len() && ds@[i as int].id == id,
        r is None ==> forall|j: int| 0 <= j < ds@.len() ==> (#[trigger] ds@[j]).id != id,
{
    let mut i: usize = 0;
    while i < ds.len()
        invariant
            i <= ds@.len(),
            forall|j: int| 0 <= j < i ==> (#[trigger] ds@[j]).id != id,
        decreases ds@.len() - i,
    {
        if ds[i].id == id {
            return Some(i);
        }
        i = i + 1;
    }
    None
}

/// The position of a host that is the same host as `h`.
fn find_host(hs: &Vec<Host>, h: &Host) -> (r: Option<usize>)
    ensures
        r matches Some(i) ==> i < hs@.len() && same_host(hs@[i as int], *h),
        r is None ==> !host_known(hs@, *h),
{
    let mut i: usize = 0;
    while i < hs.len()
        invariant
            i <= hs@.len(),
            forall|j: int| 0 <= j < i ==> !same_host(#[trigger] hs@[j], *h),
        decreases hs@.len() - i,
    {
        if hs[i] == *h {
            return Some(i);
        }
        i = i + 1;
    }
    None
}

/// The position of the link `l`.
fn find_link(ls: &Vec<Link>, l: Link) -> (r: Option<usize>)
    ensures
        r matches Some(i) ==> i < ls@.len() && ls@[i as int] == l,
        r is None ==> !ls@.contains(l),
{
    let mut i: usize = 0;
    while i < ls.len()
        invariant
            i <= ls@.len(),
            forall|j: int| 0 <= j < i ==> #[trigger] ls@[j] != l,
        decreases ls@.len() - i,
    {
        if ls[i] == l {
            return Some(i);
        }
        i = i + 1;
    }
    None
}

/// The interface of the first port numbered `port` among `ps`.
pub open spec fn port_interface(ps: Seq<Port>, port: u32) -> Option<Interface> {
    match first_where(ps, |p: Port| p.number == port) {
        Some(p) => p.interface,
        None => None,
    }
}

/// The interface at a connect point: that of the first port of the device
/// with the point's number.
pub open spec fn interface_by_cp(s: CommonStateView, cp: ConnectPoint) -> Option<Interface> {
    match first_where(s.devices, |d: DeviceView| d.id == cp.device) {
        Some(d) => port_interface(d.ports, cp.port),
        None => None,
    }
}

impl CommonStateInner {
    /// A state that knows nothing.
    pub fn new() -> (r: CommonStateInner)
        ensures
            r@.devices.len() == 0,
            r@.hosts.len() == 0,
            r@.links.len() == 0,
            state_wf(r@),
    {
        CommonStateInner { devices: Vec::new(), hosts: Vec::new(), links: Vec::new() }
    }

    /// Merges a device: a known device gains the ports it did not have, an
    /// unknown one is added.
    pub fn merge_device(&mut self, info: &Device) -> (r: MergeResult<DeviceID>)
        requires
            state_wf(old(self)@),
            info.wf(),
        ensures
            state_wf(final(self)@),
            final(self)@ == (CommonStateView {
                devices: spec_merge_device(old(self)@.devices, info@),
                ..old(self)@
            }),
            r == (if has_device(old(self)@.devices, info.id) {
                MergeResult::MERGED
            } else {
                MergeResult::ADDED(info.id)
            }),
    {
        let ghost s = self@;
        match find_device(&self.devices, info.id) {
            Some(i) => {
                let ghost ds = self.devices@;
                let mut d = self.devices.remove(i);
                merge_ports_into(&mut d.ports, &info.ports);
                self.devices.insert(i, d);
                proof {
                    assert(s.devices[i as int] == ds[i as int]@);
                    assert(ports_unique(s.devices[i as int].ports));
                    assert(has_device(s.devices, info.id));
                    assert(self@.devices =~= s.devices.map_values(
                        |x: DeviceView| merged_into(x, info@),
                    )) by {
                        assert forall|k: int| 0 <= k < s.devices.len() implies #[trigger] self@.devices[k]
                            == merged_into(s.devices[k], info@) by {
                            if k != i {
                                assert(s.devices[k].id != s.devices[i as int].id);
                                assert(self.devices@[k] == ds[k]);
                            }
                        }
                    }
                    lemma_merge_ports_unique(ds[i as int].ports@, info.ports@);
                    assert(self@.hosts == s.hosts);
                    assert(self@.links == s.links);
                    assert forall|k: int| 0 <= k < self@.devices.len() implies ports_unique(
                        #[trigger] self@.devices[k].ports,
                    ) by {
                        if k != i {
                            assert(self@.devices[k] == s.devices[k]);
                        } else {
                            assert(self@.devices[k] == merged_into(s.devices[k], info@));
                        }
                    }
                    assert forall|a: int, b: int|
                        0 <= a < self@.devices.len() && 0 <= b < self@.devices.len() && a != b implies (
                    #[trigger] self@.devices[a]).id != (#[trigger] self@.devices[b]).id by {
                        assert(self@.devices[a].id == s.devices[a].id);
                        assert(self@.devices[b].id == s.devices[b].id);
                    }
                }
                MergeResult::MERGED
            },
            None => {
                let d = info.duplicate();
                self.devices.push(d);
                proof {
                    assert(!has_device(s.devices, info.id)) by {
                        if has_device(s.devices, info.id) {
                            let k = choose|k: int| 0 <= k < s.devices.len() && (#[trigger] s.devices[k]).id == info.id;
                            assert(s.devices[k].id == self.devices@[k].id);
                        }
                    }
                    assert(self@.devices =~= s.devices.push(info@));
                    assert forall|k: int| 0 <= k < self@.devices.len() implies ports_unique(
                        #[trigger] self@.devices[k].ports,
                    ) by {
                        if k < s.devices.len() {
                            assert(self@.devices[k] == s.devices[k]);
                        }
                    }
                    assert(self@.hosts == s.hosts);
                    assert(self@.links == s.links);
                    assert forall|a: int, b: int|
                        0 <= a < self@.devices.len() && 0 <= b < self@.devices.len() && a != b implies (
                    #[trigger] self@.devices[a]).id != (#[trigger] self@.devices[b]).id by {
                        if a < s.devices.len() {
                            assert(self@.devices[a].id == self.devices@[a].id);
                        }
                        if b < s.devices.len() {
                            assert(self@.devices[b].id == self.devices@[b].id);
                        }
                    }
                }
                MergeResult::ADDED(info.id)
            },
        }
    }

    /// Merges a host: a new host is added; a known one seen at the same
    /// place is merged, one seen elsewhere is a conflict.
    pub fn merge_host(&mut self, info: &Host) -> (r: MergeResult<Host>)
        requires
            state_wf(old(self)@),
        ensures
            state_wf(final(self)@),
            final(self)@ == (if host_known(old(self)@.hosts, *info) {
                old(self)@
            } else {
                CommonStateView { hosts: old(self)@.hosts.push(*info), ..old(self)@ }
            }),
            r == (if !host_known(old(self)@.hosts, *info) {
                MergeResult::ADDED(*info)
            } else if host_conflict(old(self)@.hosts, *info) {
                MergeResult::CONFLICT
            } else {
                MergeResult::MERGED
            }),
    {
        let ghost s = self@;
        match find_host(&self.hosts, info) {
            Some(i) => {
                proof {
                    assert(host_conflict(s.hosts, *info) <==> self.hosts@[i as int].location != info.location) by {
                        if host_conflict(s.hosts, *info) {
                            let k = choose|k: int| 0 <= k < s.hosts.len() && same_host(#[trigger] s.hosts[k], *info) && s.hosts[k].location != info.location;
                            if k != i {
                                assert(!same_host(s.hosts[k], s.hosts[i as int]));
                            }
                        }
                    }
                }
                if self.hosts[i].location != info.location {
                    MergeResult::CONFLICT
                } else {
                    MergeResult::MERGED
                }
            },
            None => {
                self.hosts.push(*info);
                proof {
                    assert forall|a: int, b: int|
                        0 <= a < self@.hosts.len() && 0 <= b < self@.hosts.len() && a != b implies !same_host(
                        #[trigger] self@.hosts[a],
                        #[trigger] self@.hosts[b],
                    ) by {
                        if a == s.hosts.len() {
                            assert(!same_host(s.hosts[b], *info));
                        } else if b == s.hosts.len() {
                            assert(!same_host(s.hosts[a], *info));
                        }
                    }
                    assert(self@.devices =~= s.devices);
                }
                MergeResult::ADDED(*info)
            },
        }
    }

    /// Adds a link unless it is known. The cost is what a path computation
    /// would weigh the link by.
    pub fn add_link(&mut self, link: Link, cost: u32) -> (r: MergeResult<()>)
        requires
            state_wf(old(self)@),
        ensures
            state_wf(final(self)@),
            final(self)@ == (if old(self)@.links.contains(link) {
                old(self)@
            } else {
                CommonStateView { links: old(self)@.links.push(link), ..old(self)@ }
            }),
            r == (if old(self)@.links.contains(link) {
                MergeResult::MERGED
            } else {
                MergeResult::ADDED(())
            }),
    {
        let ghost s = self@;
        match find_link(&self.links, link) {
            Some(i) => MergeResult::MERGED,
            None => {
                self.links.push(link);
                proof {
                    assert forall|a: int, b: int|
                        0 <= a < self@.links.len() && 0 <= b < self@.links.len() && a != b implies #[trigger] self@.links[a]
                        != #[trigger] self@.links[b] by {
                        if a == s.links.len() {
                            assert(s.links[b] != link);
                        } else if b == s.links.len() {
                            assert(s.links[a] != link);
                        }
                    }
                    assert(self@.devices =~= s.devices);
                }
                MergeResult::ADDED(())
            },
        }
    }

    /// Removes the device `id`; says whether it was known.
    fn remove_device(&mut self, id: DeviceID) -> (r: bool)
        requires
            state_wf(old(self)@),
        ensures
            state_wf(final(self)@),
            r == has_device(old(self)@.devices, id),
            final(self)@ == (CommonStateView {
                devices: old(self)@.devices.filter(not_device(id)),
                ..old(self)@
            }),
    {
        let ghost s = self@;
        match find_device(&self.devices, id) {
            Some(i) => {
                let ghost ds = self.devices@;
                let _d = self.devices.remove(i);
                proof {
                    assert(s.devices[i as int].id == id);
                    assert forall|j: int| 0 <= j < s.devices.len() && j != i implies (#[trigger] not_device(id)(s.devices[j])) by {
                        assert(s.devices[j].id != s.devices[i as int].id);
                    }
                    lemma_filter_remove_one(s.devices, not_device(id), i as int);
                    assert(self@.devices =~= s.devices.remove(i as int));
                    assert forall|a: int, b: int|
                        0 <= a < self@.devices.len() && 0 <= b < self@.devices.len() && a != b implies (
                    #[trigger] self@.devices[a]).id != (#[trigger] self@.devices[b]).id by {
                        let a0 = if a < i { a } else { a + 1 };
                        let b0 = if b < i { b } else { b + 1 };
                        assert(self@.devices[a] == s.devices[a0]);
                        assert(self@.devices[b] == s.devices[b0]);
                    }
                    assert forall|k: int| 0 <= k < self@.devices.len() implies ports_unique(
                        #[trigger] self@.devices[k].ports,
                    ) by {
                        let k0 = if k < i { k } else { k + 1 };
                        assert(self@.devices[k] == s.devices[k0]);
                    }
                }
                true
            },
            None => {
                proof {
                    assert forall|j: int| 0 <= j < s.devices.len() implies (#[trigger] not_device(id)(s.devices[j])) by {
                        assert(s.devices[j].id == self.devices@[j].id);
                    }
                    lemma_filter_all(s.devices, not_device(id));
                    assert(!has_device(s.devices, id)) by {
                        if has_device(s.devices, id) {
                            let k = choose|k: int| 0 <= k < s.devices.len() && (#[trigger] s.devices[k]).id == id;
                            assert(not_device(id)(s.devices[k]));
                        }
                    }
                }
                false
            },
        }
    }

    /// Removes the host that is the same host as `h`; says whether one was known.
    fn remove_host(&mut self, h: &Host) -> (r: bool)
        requires
            state_wf(old(self)@),
        ensures
            state_wf(final(self)@),
            r == host_known(old(self)@.hosts, *h),
            final(self)@ == (CommonStateView {
                hosts: old(self)@.hosts.filter(not_same_host(*h)),
                ..old(self)@
            }),
    {
        let ghost s = self@;
        match find_host(&self.hosts, h) {
            Some(i) => {
                self.hosts.remove(i);
                proof {
                    assert forall|j: int| 0 <= j < s.hosts.len() && j != i implies (#[trigger] not_same_host(*h)(s.hosts[j])) by {
                        assert(!same_host(s.hosts[j], s.hosts[i as int]));
                    }
                    lemma_filter_remove_one(s.hosts, not_same_host(*h), i as int);
                    assert forall|a: int, b: int|
                        0 <= a < self@.hosts.len() && 0 <= b < self@.hosts.len() && a != b implies !same_host(
                        #[trigger] self@.hosts[a],
                        #[trigger] self@.hosts[b],
                    ) by {
                        let a0 = if a < i { a } else { a + 1 };
                        let b0 = if b < i { b } else { b + 1 };
                        assert(self@.hosts[a] == s.hosts[a0]);
                        assert(self@.hosts[b] == s.hosts[b0]);
                    }
                    assert(self@.devices =~= s.devices);
                }
                true
            },
            None => {
                proof {
                    assert forall|j: int| 0 <= j < s.hosts.len() implies (#[trigger] not_same_host(*h)(s.hosts[j])) by {
                        if same_host(s.hosts[j], *h) {
                            assert(host_known(s.hosts, *h));
                        }
                    }
                    lemma_filter_all(s.hosts, not_same_host(*h));
                }
                false
            },
        }
    }

    /// Removes the link `l`; says whether it was known.
    fn remove_link(&mut self, l: Link) -> (r: bool)
        requires
            state_wf(old(self)@),
        ensures
            state_wf(final(self)@),
            r == old(self)@.links.contains(l),
            final(self)@ == (CommonStateView {
                links: old(self)@.links.filter(not_link(l)),
                ..old(self)@
            }),
    {
        let ghost s = self@;
        match find_link(&self.links, l) {
            Some(i) => {
                self.links.remove(i);
                proof {
                    assert forall|j: int| 0 <= j < s.links.len() && j != i implies (#[trigger] not_link(l)(s.links[j])) by {
                        assert(s.links[j] != s.links[i as int]);
                    }
                    lemma_filter_remove_one(s.links, not_link(l), i as int);
                    assert forall|a: int, b: int|
                        0 <= a < self@.links.len() && 0 <= b < self@.links.len() && a != b implies #[trigger] self@.links[a]
                        != #[trigger] self@.links[b] by {
                        let a0 = if a < i { a } else { a + 1 };
                        let b0 = if b < i { b } else { b + 1 };
                        assert(self@.links[a] == s.links[a0]);
                        assert(self@.links[b] == s.links[b0]);
                    }
                    assert(self@.devices =~= s.devices);
                }
                true
            },
            None => {
                proof {
                    lemma_filter_all(s.links, not_link(l));
                }
                false
            },
        }
    }

    /// The events that the loss of device `id` leads to.
    fn lost_events(&self, id: DeviceID) -> (r: Vec<CommonEvents>)
        ensures
            r@ == lost_events(self@, id),
    {
        let mut out: Vec<CommonEvents> = Vec::new();
        let mut i: usize = 0;
        while i < self.hosts.len()
            invariant
                i <= self.hosts@.len(),
                out@ == self.hosts@.take(i as int).filter(host_at(id)).map_values(
                    |h: Host| CommonEvents::HostLost(h),
                ),
            decreases self.hosts@.len() - i,
        {
            proof {
                reveal(Seq::filter);
                assert(self.hosts@.take(i + 1).drop_last() =~= self.hosts@.take(i as int));
            }
            let h = self.hosts[i];
            if h.location.device == id {
                out.push(CommonEvents::HostLost(h));
            }
            i = i + 1;
            proof {
                assert(out@ =~= self.hosts@.take(i as int).filter(host_at(id)).map_values(
                    |h: Host| CommonEvents::HostLost(h),
                ));
            }
        }
        let ghost hosts_part = out@;
        proof {
            assert(self.hosts@.take(self.hosts@.len() as int) =~= self.hosts@);
        }
        let mut k: usize = 0;
        while k < self.links.len()
            invariant
                k <= self.links@.len(),
                hosts_part == self.hosts@.filter(host_at(id)).map_values(
                    |h: Host| CommonEvents::HostLost(h),
                ),
                out@ == hosts_part + self.links@.take(k as int).filter(link_at(id)).map_values(
                    |l: Link| CommonEvents::LinkLost(l),
                ),
            decreases self.links@.len() - k,
        {
            proof {
                reveal(Seq::filter);
                assert(self.links@.take(k + 1).drop_last() =~= self.links@.take(k as int));
            }
            let l = self.links[k];
            if l.src.device == id || l.dst.device == id {
                out.push(CommonEvents::LinkLost(l));
            }
            k = k + 1;
            proof {
                assert(out@ =~= hosts_part + self.links@.take(k as int).filter(link_at(id)).map_values(
                    |l: Link| CommonEvents::LinkLost(l),
                ));
            }
        }
        proof {
            assert(self.links@.take(self.links@.len() as int) =~= self.links@);
        }
        out
    }

    /// Applies an event to the state, as the extended application core does
    /// before it runs its hooks: devices, hosts and links are merged in or
    /// removed, new ones are reported, and the loss of a device leads to the
    /// loss of its hosts and links.
    pub fn on_event(&mut self, event: &CommonEvents) -> (r: EventOutcome)
        requires
            state_wf(old(self)@),
            event_wf(*event),
        ensures
            state_wf(final(self)@),
            final(self)@ == step_state(old(self)@, *event),
            r.notify == step_notify(old(self)@, *event),
            r.follow_ups@ == step_follow_ups(old(self)@, *event),
    {
        let ghost s = self@;
        match event {
            CommonEvents::DeviceAdded(device) => {
                let m = self.merge_device(device);
                let notify = match m {
                    MergeResult::ADDED(id) => Notify::DeviceAdded(id),
                    _ => Notify::Nothing,
                };
                EventOutcome { notify, follow_ups: Vec::new() }
            },
            CommonEvents::HostDetected(host) => {
                let m = self.merge_host(host);
                let notify = match m {
                    MergeResult::ADDED(h) => Notify::HostAdded(h),
                    _ => Notify::Nothing,
                };
                EventOutcome { notify, follow_ups: Vec::new() }
            },
            CommonEvents::LinkDetected(link) => {
                let m = self.add_link(*link, 1);
                let notify = match m {
                    MergeResult::ADDED(_) => Notify::LinkAdded(*link),
                    _ => Notify::Nothing,
                };
                EventOutcome { notify, follow_ups: Vec::new() }
            },
            CommonEvents::DeviceLost(id) => {
                if self.remove_device(*id) {
                    let follow_ups = self.lost_events(*id);
                    EventOutcome { notify: Notify::Nothing, follow_ups }
                } else {
                    EventOutcome { notify: Notify::Nothing, follow_ups: Vec::new() }
                }
            },
            CommonEvents::LinkLost(link) => {
                self.remove_link(*link);
                EventOutcome { notify: Notify::Nothing, follow_ups: Vec::new() }
            },
            CommonEvents::HostLost(host) => {
                self.remove_host(host);
                EventOutcome { notify: Notify::Nothing, follow_ups: Vec::new() }
            },
            _ => EventOutcome { notify: Notify::Nothing, follow_ups: Vec::new() },
        }
    }

    /// The interface of the port at a connect point, where the device and
    /// the port are known and the port has one.
    pub fn get_interface_by_cp(&self, cp: &ConnectPoint) -> (r: Option<&Interface>)
        ensures
            r matches Some(i) ==> interface_by_cp(self@, *cp) == Some(*i),
            r is None ==> interface_by_cp(self@, *cp) is None,
    {
        let ghost s = self@;
        let ghost pd = |d: DeviceView| d.id == cp.device;
        let mut i: usize = 0;
        while i < self.devices.len()
            invariant
                i <= s.devices.len(),
                s == self@,
                pd == (|d: DeviceView| d.id == cp.device),
                forall|k: int| 0 <= k < i ==> !pd(#[trigger] s.devices[k]),
            decreases s.devices.len() - i,
        {
            if self.devices[i].id == cp.device {
                proof {
                    lemma_first_where_step(s.devices, pd, i as int);
                    assert(s.devices.skip(i as int)[0] == s.devices[i as int]);
                }
                let d = &self.devices[i];
                proof {
                    assert(s.devices[i as int] == d@);
                    assert(interface_by_cp(s, *cp) == port_interface(d.ports@, cp.port));
                }
                let ghost pp = |p: Port| p.number == cp.port;
                let mut j: usize = 0;
                while j < d.ports.len()
                    invariant
                        j <= d.ports@.len(),
                        interface_by_cp(s, *cp) == port_interface(d.ports@, cp.port),
                        s == self@,
                        pp == (|p: Port| p.number == cp.port),
                        forall|k: int| 0 <= k < j ==> !pp(#[trigger] d.ports@[k]),
                    decreases d.ports@.len() - j,
                {
                    if d.ports[j].number == cp.port {
                        proof {
                            lemma_first_where_step(d.ports@, pp, j as int);
                            assert(d.ports@.skip(j as int)[0] == d.ports@[j as int]);
                        }
                        return match &d.ports[j].interface {
                            Some(x) => Some(x),
                            None => None,
                        };
                    }
                    j = j + 1;
                }
                proof {
                    lemma_first_where_none(d.ports@, pp);
                }
                return None;
            }
            i = i + 1;
        }
        proof {
            lemma_first_where_none(s.devices, pd);
        }
        None
    }

    /// The MAC of the interface at a connect point, where there is one.
    pub fn get_mac_by_cp(&self, cp: &ConnectPoint) -> (r: Option<MAC>)
        ensures
            r == (match interface_by_cp(self@, *cp) {
                Some(i) => i.mac,
                None => None,
            }),
    {
        match self.get_interface_by_cp(cp) {
            Some(i) => i.mac,
            None => None,
        }
    }
}

/// The state after each event of `es` in turn.
pub open spec fn apply_all(s: CommonStateView, es: Seq<CommonEvents>) -> CommonStateView
    decreases es.len(),
{
    if es.len() == 0 {
        s
    } else {
        apply_all(step_state(s, es[0]), es.drop_first())
    }
}

/// Applying two runs of events is applying the first, then the second.
pub proof fn lemma_apply_all_append(s: CommonStateView, a: Seq<CommonEvents>, b: Seq<CommonEvents>)
    ensures
        apply_all(s, a + b) == apply_all(apply_all(s, a), b),
    decreases a.len(),
{
    if a.len() == 0 {
        assert(a + b =~= b);
    } else {
        assert((a + b)[0] == a[0]);
        assert((a + b).drop_first() =~= a.drop_first() + b);
        lemma_apply_all_append(step_state(s, a[0]), a.drop_first(), b);
    }
}

/// An element kept by a filter was in the sequence and satisfies the filter.
proof fn lemma_filter_kept<A>(s: Seq<A>, p: spec_fn(A) -> bool, x: A)
    requires
        s.filter(p).contains(x),
    ensures
        s.contains(x),
        p(x),
{
    broadcast use vstd::seq_lib::group_filter_ensures;
    s.lemma_filter_contains_rev(p, x);
    let k = choose|k: int| 0 <= k < s.filter(p).len() && s.filter(p)[k] == x;
    s.lemma_filter_pred(p, k);
}

/// The loss of each of `hs` in turn leaves only hosts that were there and
/// that are none of `hs`; devices and links stay as they are.
proof fn lemma_apply_host_losts(t: CommonStateView, hs: Seq<Host>)
    ensures
        apply_all(t, host_losses(hs)).devices == t.devices,
        apply_all(t, host_losses(hs)).links == t.links,
        forall|x: Host|
            #[trigger] apply_all(t, host_losses(hs)).hosts.contains(x)
                ==> t.hosts.contains(x) && forall|j: int| 0 <= j < hs.len() ==> !same_host(x, #[trigger] hs[j]),
    decreases hs.len(),
{
    let es = host_losses(hs);
    if hs.len() > 0 {
        let t1 = step_state(t, es[0]);
        assert(es.drop_first() =~= host_losses(hs.drop_first()));
        lemma_apply_host_losts(t1, hs.drop_first());
        assert forall|x: Host| #[trigger] apply_all(t, es).hosts.contains(x) implies t.hosts.contains(x)
            && forall|j: int| 0 <= j < hs.len() ==> !same_host(x, #[trigger] hs[j]) by {
            lemma_filter_kept(t.hosts, not_same_host(hs[0]), x);
            assert forall|j: int| 0 <= j < hs.len() implies !same_host(x, #[trigger] hs[j]) by {
                if j > 0 {
                    assert(hs[j] == hs.drop_first()[j - 1]);
                }
            }
        }
    }
}

/// The loss of each of `ls` in turn leaves only links that were there and
/// that are none of `ls`; devices and hosts stay as they are.
proof fn lemma_apply_link_losts(t: CommonStateView, ls: Seq<Link>)
    ensures
        apply_all(t, link_losses(ls)).devices == t.devices,
        apply_all(t, link_losses(ls)).hosts == t.hosts,
        forall|x: Link|
            #[trigger] apply_all(t, link_losses(ls)).links.contains(x)
                ==> t.links.contains(x) && forall|j: int| 0 <= j < ls.len() ==> x != #[trigger] ls[j],
    decreases ls.len(),
{
    let es = link_losses(ls);
    if ls.len() > 0 {
        let t1 = step_state(t, es[0]);
        assert(es.drop_first() =~= link_losses(ls.drop_first()));
        lemma_apply_link_losts(t1, ls.drop_first());
        assert forall|x: Link| #[trigger] apply_all(t, es).links.contains(x) implies t.links.contains(x)
            && forall|j: int| 0 <= j < ls.len() ==> x != #[trigger] ls[j] by {
            lemma_filter_kept(t.links, not_link(ls[0]), x);
            assert forall|j: int| 0 <= j < ls.len() implies x != #[trigger] ls[j] by {
                if j > 0 {
                    assert(ls[j] == ls.drop_first()[j - 1]);
                }
            }
        }
    }
}

/// Once a known device is lost and the events that follow are handled, the
/// device is gone, and so is every host seen on it and every link with an
/// end on it.
pub proof fn lemma_device_lost_clears(s: CommonStateView, id: DeviceID)
    requires
        has_device(s.devices, id),
    ensures
        ({
            let t = apply_all(
                step_state(s, CommonEvents::DeviceLost(id)),
                step_follow_ups(s, CommonEvents::DeviceLost(id)),
            );
            &&& !has_device(t.devices, id)
            &&& forall|i: int| 0 <= i < t.hosts.len() ==> (#[trigger] t.hosts[i]).location.device != id
            &&& forall|i: int|
                0 <= i < t.links.len() ==> (#[trigger] t.links[i]).src.device != id
                    && t.links[i].dst.device != id
        }),
{
    broadcast use vstd::seq_lib::group_filter_ensures;
    let s1 = step_state(s, CommonEvents::DeviceLost(id));
    let hs = s.hosts.filter(host_at(id));
    let ls = s.links.filter(link_at(id));
    let hm = host_losses(hs);
    let lm = link_losses(ls);
    assert(step_follow_ups(s, CommonEvents::DeviceLost(id)) == hm + lm);
    lemma_apply_all_append(s1, hm, lm);
    lemma_apply_host_losts(s1, hs);
    let t2 = apply_all(s1, hm);
    lemma_apply_link_losts(t2, ls);
    let t = apply_all(t2, lm);
    assert(!has_device(t.devices, id)) by {
        if has_device(t.devices, id) {
            let k = choose|k: int| 0 <= k < t.devices.len() && (#[trigger] t.devices[k]).id == id;
            s.devices.lemma_filter_pred(not_device(id), k);
        }
    }
    assert forall|i: int| 0 <= i < t.hosts.len() implies (#[trigger] t.hosts[i]).location.device != id by {
        let x = t.hosts[i];
        assert(t.hosts.contains(x));
        assert(t2.hosts.contains(x));
        if x.location.device == id {
            let k = choose|k: int| 0 <= k < s.hosts.len() && s.hosts[k] == x;
            s.hosts.lemma_filter_contains(host_at(id), k);
            let j = choose|j: int| 0 <= j < hs.len() && hs[j] == x;
            assert(same_host(x, hs[j]));
        }
    }
    assert forall|i: int|
        0 <= i < t.links.len() implies (#[trigger] t.links[i]).src.device != id && t.links[i].dst.device
            != id by {
        let x = t.links[i];
        assert(t.links.contains(x));
        if x.src.device == id || x.dst.device == id {
            let k = choose|k: int| 0 <= k < s.links.len() && s.links[k] == x;
            s.links.lemma_filter_contains(link_at(id), k);
            let j = choose|j: int| 0 <= j < ls.len() && ls[j] == x;
            assert(x == ls[j]);
        }
    }
}

/// A new host that is detected and then lost leaves the state as it was.
pub proof fn lemma_host_detected_then_lost(s: CommonStateView, h: Host)
    requires
        !host_known(s.hosts, h),
    ensures
        step_state(step_state(s, CommonEvents::HostDetected(h)), CommonEvents::HostLost(h)) == s,
{
    let s1 = step_state(s, CommonEvents::HostDetected(h));
    assert(s1.hosts == s.hosts.push(h));
    lemma_filter_push_dropped(s.hosts, h, not_same_host(h));
    lemma_lost_unknown(s, h, arbitrary(), arbitrary());
    let s2 = step_state(s1, CommonEvents::HostLost(h));
    assert(s2.hosts == s.hosts);
    assert(s2 =~= s);
}

/// A new link that is detected and then lost leaves the state as it was.
pub proof fn lemma_link_detected_then_lost(s: CommonStateView, l: Link)
    requires
        !s.links.contains(l),
    ensures
        step_state(step_state(s, CommonEvents::LinkDetected(l)), CommonEvents::LinkLost(l)) == s,
{
    let s1 = step_state(s, CommonEvents::LinkDetected(l));
    assert(s1.links == s.links.push(l));
    lemma_filter_push_dropped(s.links, l, not_link(l));
    lemma_lost_unknown(s, arbitrary(), l, arbitrary());
    let s2 = step_state(s1, CommonEvents::LinkLost(l));
    assert(s2.links == s.links);
    assert(s2 =~= s);
}

/// A new device that is added and then lost leaves the state as it was.
pub proof fn lemma_device_added_then_lost(s: CommonStateView, d: Device)
    requires
        !has_device(s.devices, d.id),
    ensures
        step_state(step_state(s, CommonEvents::DeviceAdded(d)), CommonEvents::DeviceLost(d.id)) == s,
{
    let s1 = step_state(s, CommonEvents::DeviceAdded(d));
    assert(s1.devices == s.devices.push(d@));
    lemma_filter_push_dropped(s.devices, d@, not_device(d.id));
    lemma_lost_unknown(s, arbitrary(), arbitrary(), d.id);
    let s2 = step_state(s1, CommonEvents::DeviceLost(d.id));
    assert(s2.devices == s.devices);
    assert(s2 =~= s);
}

/// Detecting a host or a link a second time changes nothing.
pub proof fn lemma_detected_twice(s: CommonStateView, h: Host, l: Link)
    ensures
        ({
            let e = CommonEvents::HostDetected(h);
            step_state(step_state(s, e), e) == step_state(s, e) && step_notify(step_state(s, e), e)
                == Notify::Nothing
        }),
        ({
            let e = CommonEvents::LinkDetected(l);
            step_state(step_state(s, e), e) == step_state(s, e) && step_notify(step_state(s, e), e)
                == Notify::Nothing
        }),
{
    let s1 = step_state(s, CommonEvents::HostDetected(h));
    assert(host_known(s1.hosts, h)) by {
        if !host_known(s.hosts, h) {
            assert(same_host(s1.hosts[s.hosts.len() as int], h));
        }
    }
    let s2 = step_state(s, CommonEvents::LinkDetected(l));
    assert(s2.links.contains(l)) by {
        if !s.links.contains(l) {
            assert(s2.links[s.links.len() as int] == l);
        }
    }
}

/// The loss of a host, a link or a device that is not known changes nothing.
pub proof fn lemma_lost_unknown(s: CommonStateView, h: Host, l: Link, id: DeviceID)
    ensures
        !host_known(s.hosts, h) ==> step_state(s, CommonEvents::HostLost(h)) == s,
        !s.links.contains(l) ==> step_state(s, CommonEvents::LinkLost(l)) == s,
        !has_device(s.devices, id) ==> step_state(s, CommonEvents::DeviceLost(id)) == s
            && step_follow_ups(s, CommonEvents::DeviceLost(id)).len() == 0,
{
    if !host_known(s.hosts, h) {
        assert forall|j: int| 0 <= j < s.hosts.len() implies (#[trigger] not_same_host(h)(s.hosts[j])) by {
            if same_host(s.hosts[j], h) {
                assert(host_known(s.hosts, h));
            }
        }
        lemma_filter_all(s.hosts, not_same_host(h));
    }
    if !s.links.contains(l) {
        assert forall|j: int| 0 <= j < s.links.len() implies (#[trigger] not_link(l)(s.links[j])) by {
            if s.links[j] == l {
                assert(s.links.contains(l));
            }
        }
        lemma_filter_all(s.links, not_link(l));
    }
    if !has_device(s.devices, id) {
        assert forall|j: int| 0 <= j < s.devices.len() implies (#[trigger] not_device(id)(s.devices[j])) by {
            if s.devices[j].id == id {
                assert(has_device(s.devices, id));
            }
        }
        lemma_filter_all(s.devices, not_device(id));
    }
}


/// A port is the same port as itself.
proof fn lemma_same_port_refl(p: Port)
    ensures
        same_port(p, p),
{
}

/// Merging keeps every port there was, and every port of `new` is there
/// afterwards.
proof fn lemma_merge_ports_has(ps: Seq<Port>, new: Seq<Port>)
    ensures
        forall|q: Port| has_port(ps, q) ==> has_port(merge_ports(ps, new), q),
        forall|j: int| 0 <= j < new.len() ==> has_port(merge_ports(ps, new), #[trigger] new[j]),
    decreases new.len(),
{
    if new.len() > 0 {
        let m0 = merge_ports(ps, new.drop_last());
        lemma_merge_ports_has(ps, new.drop_last());
        let m = merge_ports(ps, new);
        assert(m == add_port(m0, new.last()));
        assert forall|q: Port| has_port(m0, q) implies has_port(m, q) by {
            if !has_port(m0, new.last()) {
                let i = choose|i: int| 0 <= i < m0.len() && same_port(#[trigger] m0[i], q);
                assert(m[i] == m0[i]);
            }
        }
        assert forall|j: int| 0 <= j < new.len() implies has_port(m, #[trigger] new[j]) by {
            if j < new.len() - 1 {
                assert(new.drop_last()[j] == new[j]);
                assert(has_port(m0, new[j]));
            } else {
                lemma_same_port_refl(new.last());
                if !has_port(m0, new.last()) {
                    assert(same_port(m[m0.len() as int], new[j]));
                }
            }
        }
    }
}

/// Merging ports that are all there already changes nothing.
proof fn lemma_merge_ports_known(ps: Seq<Port>, new: Seq<Port>)
    requires
        forall|j: int| 0 <= j < new.len() ==> has_port(ps, #[trigger] new[j]),
    ensures
        merge_ports(ps, new) == ps,
    decreases new.len(),
{
    if new.len() > 0 {
        assert forall|j: int| 0 <= j < new.drop_last().len() implies has_port(ps, #[trigger] new.drop_last()[j]) by {
            assert(new.drop_last()[j] == new[j]);
        }
        lemma_merge_ports_known(ps, new.drop_last());
        assert(has_port(ps, new[new.len() - 1]));
    }
}

/// Merging the same ports a second time changes nothing.
pub proof fn lemma_merge_ports_twice(ps: Seq<Port>, new: Seq<Port>)
    ensures
        merge_ports(merge_ports(ps, new), new) == merge_ports(ps, new),
{
    lemma_merge_ports_has(ps, new);
    lemma_merge_ports_known(merge_ports(ps, new), new);
}

/// Adding the same device a second time changes nothing and reports nothing.
pub proof fn lemma_device_added_twice(s: CommonStateView, d: Device)
    ensures
        ({
            let e = CommonEvents::DeviceAdded(d);
            step_state(step_state(s, e), e) == step_state(s, e) && step_notify(step_state(s, e), e)
                == Notify::Nothing
        }),
{
    let e = CommonEvents::DeviceAdded(d);
    let s1 = step_state(s, e);
    let info = d@;
    lemma_merge_ports_twice(info.ports, info.ports);
    assert forall|j: int| 0 <= j < info.ports.len() implies has_port(info.ports, #[trigger] info.ports[j]) by {
        lemma_same_port_refl(info.ports[j]);
    }
    lemma_merge_ports_known(info.ports, info.ports);
    assert(has_device(s1.devices, d.id)) by {
        if has_device(s.devices, d.id) {
            let k = choose|k: int| 0 <= k < s.devices.len() && (#[trigger] s.devices[k]).id == d.id;
            assert(s1.devices[k].id == d.id);
        } else {
            assert(s1.devices[s.devices.len() as int].id == d.id);
        }
    }
    let s2 = step_state(s1, e);
    assert forall|k: int| 0 <= k < s1.devices.len() implies #[trigger] merged_into(s1.devices[k], info) == s1.devices[k] by {
        if s1.devices[k].id == info.id {
            if has_device(s.devices, d.id) {
                lemma_merge_ports_twice(s.devices[k].ports, info.ports);
            }
        }
    }
    assert(s2.devices =~= s1.devices);
    assert(s2 =~= s1);
}

} // verus!
