//! The extended application core: hooks installed under names or under an
//! EtherType, and the choice of the hook that a received packet goes to.

use vstd::prelude::*;
use crate::common::{CommonStateInner, has_device};
use crate::ethernet::Ethernet;
use crate::packet::{Packet, Data, be_u16_at};
use crate::representation::{Device, DeviceID};

verus! {

/// Hooks kept under distinct names, in the order they were installed.
pub struct NamedHooks<H> {
    hooks: Vec<(String, H)>,
}

/// The names of the hooks, in order.
pub open spec fn hook_names<H>(hs: Seq<(String, H)>) -> Seq<Seq<char>> {
    hs.map_values(|e: (String, H)| e.0@)
}

impl<H> NamedHooks<H> {
    /// The hooks with their names, in the order they were installed.
    pub closed spec fn spec_hooks(&self) -> Seq<(String, H)> {
        self.hooks@
    }

    /// No name is used twice.
    pub open spec fn wf(&self) -> bool {
        forall|i: int, j: int|
            0 <= i < self.spec_hooks().len() && 0 <= j < self.spec_hooks().len() && i != j ==> (
            #[trigger] self.spec_hooks()[i]).0@ != (#[trigger] self.spec_hooks()[j]).0@
    }

    /// No hook.
    pub fn new() -> (r: NamedHooks<H>)
        ensures
            r.spec_hooks().len() == 0,
            r.wf(),
    {
        NamedHooks { hooks: Vec::new() }
    }

    /// The position of the hook named `name`.
    fn position(&self, name: &str) -> (r: Option<usize>)
        ensures
            r matches Some(i) ==> i < self.spec_hooks().len() && self.spec_hooks()[i as int].0@ == name@
                && forall|k: int| 0 <= k < i ==> (#[trigger] self.spec_hooks()[k]).0@ != name@,
            r is None ==> !hook_names(self.spec_hooks()).contains(name@),
    {
        let mut i: usize = 0;
        while i < self.hooks.len()
            invariant
                i <= self.hooks@.len(),
                forall|k: int| 0 <= k < i ==> (#[trigger] self.hooks@[k]).0@ != name@,
            decreases self.hooks@.len() - i,
        {
            if self.hooks[i].0 == name.to_owned() {
                return Some(i);
            }
            i = i + 1;
        }
        proof {
            if hook_names(self.hooks@).contains(name@) {
                let k = choose|k: int| 0 <= k < hook_names(self.hooks@).len() && hook_names(self.hooks@)[k] == name@;
                assert(self.hooks@[k].0@ == name@);
            }
        }
        None
    }

    /// Installs `hook` under `name`, unless a hook has that name already.
    pub fn install(&mut self, name: &str, hook: H) -> (r: Option<()>)
        requires
            old(self).wf(),
        ensures
            final(self).wf(),
            r is Some <==> !hook_names(old(self).spec_hooks()).contains(name@),
            r is Some ==> final(self).spec_hooks().len() == old(self).spec_hooks().len() + 1
                && final(self).spec_hooks().drop_last() == old(self).spec_hooks()
                && final(self).spec_hooks().last().0@ == name@ && final(self).spec_hooks().last().1 == hook,
            r is None ==> final(self).spec_hooks() == old(self).spec_hooks(),
    {
        match self.position(name) {
            Some(i) => {
                proof {
                    assert(hook_names(self.hooks@)[i as int] == name@);
                }
                None
            },
            None => {
                let ghost s = self.hooks@;
                self.hooks.push((name.to_owned(), hook));
                proof {
                    assert(self.hooks@.drop_last() =~= s);
                    assert forall|i: int, j: int|
                        0 <= i < self.hooks@.len() && 0 <= j < self.hooks@.len() && i != j implies (
                    #[trigger] self.hooks@[i]).0@ != (#[trigger] self.hooks@[j]).0@ by {
                        if i == s.len() {
                            assert(hook_names(s)[j] == s[j].0@);
                        } else if j == s.len() {
                            assert(hook_names(s)[i] == s[i].0@);
                        } else {
                            assert(self.hooks@[i] == s[i] && self.hooks@[j] == s[j]);
                        }
                    }
                }
                Some(())
            },
        }
    }

    /// The hook named `name`, where there is one.
    pub fn get(&self, name: &str) -> (r: Option<&H>)
        ensures
            r is Some <==> hook_names(self.spec_hooks()).contains(name@),
            r matches Some(h) ==> exists|i: int|
                0 <= i < self.spec_hooks().len() && self.spec_hooks()[i].0@ == name@ && self.spec_hooks()[i].1
                    == *h && forall|k: int| 0 <= k < i ==> (#[trigger] self.spec_hooks()[k]).0@ != name@,
    {
        match self.position(name) {
            Some(i) => {
                proof {
                    assert(hook_names(self.hooks@)[i as int] == name@);
                }
                Some(&self.hooks[i].1)
            },
            None => None,
        }
    }

    /// The number of hooks.
    pub fn len(&self) -> (r: usize)
        ensures
            r == self.spec_hooks().len(),
    {
        self.hooks.len()
    }

    /// The hook installed `i`-th, with its name.
    pub fn hook_at(&self, i: usize) -> (r: (&str, &H))
        requires
            i < self.spec_hooks().len(),
        ensures
            r.0@ == self.spec_hooks()[i as int].0@,
            *r.1 == self.spec_hooks()[i as int].1,
    {
        (self.hooks[i].0.as_str(), &self.hooks[i].1)
    }
}

/// Where a hook installed under `name` is the last one installed, it is the
/// one found under `name`: installing under a new name and looking the name
/// up gives the hook back.
pub proof fn lemma_install_then_get<H>(before: Seq<(String, H)>, after: Seq<(String, H)>, name: Seq<char>, hook: H)
    requires
        forall|i: int, j: int|
            0 <= i < after.len() && 0 <= j < after.len() && i != j ==> (#[trigger] after[i]).0@ != (
            #[trigger] after[j]).0@,
        after.len() == before.len() + 1,
        after.drop_last() == before,
        after.last().0@ == name,
        after.last().1 == hook,
    ensures
        forall|i: int| 0 <= i < after.len() && after[i].0@ == name ==> after[i].1 == hook,
{
    assert forall|i: int| 0 <= i < after.len() && after[i].0@ == name implies after[i].1 == hook by {
        if i != after.len() - 1 {
            assert(after[i].0@ != after[after.len() - 1].0@);
        }
    }
}

/// Hooks kept under distinct EtherTypes, in the order they were installed.
pub struct EtherHooks<H> {
    hooks: Vec<(u16, H)>,
}

/// The EtherTypes of the hooks, in order.
pub open spec fn ether_keys<H>(hs: Seq<(u16, H)>) -> Seq<u16> {
    hs.map_values(|e: (u16, H)| e.0)
}

impl<H> EtherHooks<H> {
    /// The hooks with their EtherTypes, in the order they were installed.
    pub closed spec fn spec_hooks(&self) -> Seq<(u16, H)> {
        self.hooks@
    }

    /// No EtherType is used twice.
    pub open spec fn wf(&self) -> bool {
        forall|i: int, j: int|
            0 <= i < self.spec_hooks().len() && 0 <= j < self.spec_hooks().len() && i != j ==> (
            #[trigger] self.spec_hooks()[i]).0 != (#[trigger] self.spec_hooks()[j]).0
    }

    /// No hook.
    pub fn new() -> (r: EtherHooks<H>)
        ensures
            r.spec_hooks().len() == 0,
            r.wf(),
    {
        EtherHooks { hooks: Vec::new() }
    }

    /// The position of the hook for `ether_type`.
    fn position(&self, ether_type: u16) -> (r: Option<usize>)
        ensures
            r matches Some(i) ==> i < self.spec_hooks().len() && self.spec_hooks()[i as int].0 == ether_type
                && forall|k: int| 0 <= k < i ==> (#[trigger] self.spec_hooks()[k]).0 != ether_type,
            r is None ==> !ether_keys(self.spec_hooks()).contains(ether_type),
    {
        let mut i: usize = 0;
        while i < self.hooks.len()
            invariant
                i <= self.hooks@.len(),
                forall|k: int| 0 <= k < i ==> (#[trigger] self.hooks@[k]).0 != ether_type,
            decreases self.hooks@.len() - i,
        {
            if self.hooks[i].0 == ether_type {
                return Some(i);
            }
            i = i + 1;
        }
        proof {
            if ether_keys(self.hooks@).contains(ether_type) {
                let k = choose|k: int| 0 <= k < ether_keys(self.hooks@).len() && ether_keys(self.hooks@)[k] == ether_type;
                assert(self.hooks@[k].0 == ether_type);
            }
        }
        None
    }

    /// Installs `hook` for `ether_type`, unless a hook has that EtherType already.
    pub fn install(&mut self, ether_type: u16, hook: H) -> (r: Option<()>)
        requires
            old(self).wf(),
        ensures
            final(self).wf(),
            r is Some <==> !ether_keys(old(self).spec_hooks()).contains(ether_type),
            r is Some ==> final(self).spec_hooks() == old(self).spec_hooks().push((ether_type, hook)),
            r is None ==> final(self).spec_hooks() == old(self).spec_hooks(),
    {
        match self.position(ether_type) {
            Some(i) => {
                proof {
                    assert(ether_keys(self.hooks@)[i as int] == ether_type);
                }
                None
            },
            None => {
                let ghost s = self.hooks@;
                self.hooks.push((ether_type, hook));
                proof {
                    assert forall|i: int, j: int|
                        0 <= i < self.hooks@.len() && 0 <= j < self.hooks@.len() && i != j implies (
                    #[trigger] self.hooks@[i]).0 != (#[trigger] self.hooks@[j]).0 by {
                        if i == s.len() {
                            assert(ether_keys(s)[j] == s[j].0);
                        } else if j == s.len() {
                            assert(ether_keys(s)[i] == s[i].0);
                        }
                    }
                }
                Some(())
            },
        }
    }

    /// The hook for `ether_type`, where there is one.
    pub fn get(&self, ether_type: u16) -> (r: Option<&H>)
        ensures
            r is Some <==> ether_keys(self.spec_hooks()).contains(ether_type),
            r matches Some(h) ==> exists|i: int|
                0 <= i < self.spec_hooks().len() && self.spec_hooks()[i].0 == ether_type
                    && self.spec_hooks()[i].1 == *h && forall|k: int| 0 <= k < i ==> (#[trigger] self.spec_hooks()[k]).0
                    != ether_type,
    {
        match self.position(ether_type) {
            Some(i) => {
                proof {
                    assert(ether_keys(self.hooks@)[i as int] == ether_type);
                }
                Some(&self.hooks[i].1)
            },
            None => None,
        }
    }
}

/// Where a received packet goes.
#[derive(Debug, Clone, Copy, PartialEq, Eq, Structural)]
pub enum PacketDispatch {
    /// The device it came from is not known: it is dropped.
    UnknownDevice,
    /// It is no Ethernet frame: it is dropped.
    NotEthernet,
    /// It goes to the hook for its EtherType, then to the extension.
    Ethernet(u16),
}

/// Where a packet received from device `from` goes.
pub fn packet_dispatch(state: &CommonStateInner, from: DeviceID, packet: &[u8]) -> (r: PacketDispatch)
    ensures
        r == (if !has_device(state@.devices, from) {
            PacketDispatch::UnknownDevice
        } else if packet@.len() < 14 {
            PacketDispatch::NotEthernet
        } else {
            PacketDispatch::Ethernet(be_u16_at(packet@, 12))
        }),
{
    let mut i: usize = 0;
    let mut known = false;
    while i < state.devices.len()
        invariant
            i <= state.devices@.len(),
            known ==> has_device(state@.devices, from),
            !known ==> forall|k: int| 0 <= k < i ==> (#[trigger] state.devices@[k]).id != from,
        decreases state.devices@.len() - i,
    {
        if state.devices[i].id == from {
            proof {
                assert(state@.devices[i as int].id == from);
            }
            known = true;
        }
        i = i + 1;
    }
    if !known {
        proof {
            if has_device(state@.devices, from) {
                let k = choose|k: int| 0 <= k < state@.devices.len() && (#[trigger] state@.devices[k]).id == from;
                assert(state.devices@[k].id == from);
            }
        }
        return PacketDispatch::UnknownDevice;
    }
    let parsed: Option<Ethernet<Data>> = Ethernet::from_bytes(packet);
    match parsed {
        Some(e) => PacketDispatch::Ethernet(e.ether_type),
        None => PacketDispatch::NotEthernet,
    }
}

} // verus!
