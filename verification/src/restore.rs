//! The devices saved across runs of the controller, to be added again when
//! it restarts.

use vstd::prelude::*;
use crate::common::{not_device, lemma_filter_all, lemma_filter_push_dropped};
use crate::representation::{Device, DeviceView, DeviceID};

verus! {

/// The devices to add again on restart, in the order they were added.
pub struct RestoreState {
    pub devices: Vec<Device>,
}

impl View for RestoreState {
    type V = Seq<DeviceView>;

    open spec fn view(&self) -> Seq<DeviceView> {
        self.devices@.map_values(|d: Device| d@)
    }
}

impl RestoreState {
    /// No device saved.
    pub fn new() -> (r: RestoreState)
        ensures
            r@.len() == 0,
    {
        RestoreState { devices: Vec::new() }
    }

    /// Saves a device.
    pub fn add_device(&mut self, device: Device)
        ensures
            final(self)@ == old(self)@.push(device@),
    {
        let ghost s = self@;
        self.devices.push(device);
        proof {
            assert(self@ =~= s.push(device@));
        }
    }

    /// Forgets every saved device with the id `id`.
    pub fn remove_device(&mut self, id: DeviceID)
        ensures
            final(self)@ == old(self)@.filter(not_device(id)),
    {
        let ghost s = self@;
        let mut kept: Vec<Device> = Vec::new();
        let mut i: usize = 0;
        while i < self.devices.len()
            invariant
                i <= self.devices@.len(),
                s == self.devices@.map_values(|d: Device| d@),
                kept@.map_values(|d: Device| d@) == s.take(i as int).filter(not_device(id)),
            decreases self.devices@.len() - i,
        {
            proof {
                reveal(Seq::filter);
                assert(s.take(i + 1).drop_last() =~= s.take(i as int));
                assert(s.take(i + 1).last() == self.devices@[i as int]@);
            }
            if self.devices[i].id != id {
                let ghost before = kept@;
                kept.push(self.devices[i].duplicate());
                proof {
                    assert(kept@.map_values(|d: Device| d@) =~= before.map_values(|d: Device| d@).push(
                        self.devices@[i as int]@,
                    ));
                }
            }
            i = i + 1;
        }
        proof {
            assert(s.take(s.len() as int) =~= s);
        }
        self.devices = kept;
    }

    /// Hands out every saved device, in order, and keeps none.
    pub fn take_devices(&mut self) -> (r: Vec<Device>)
        ensures
            r@.map_values(|d: Device| d@) == old(self)@,
            final(self)@.len() == 0,
    {
        let mut out: Vec<Device> = Vec::new();
        std::mem::swap(&mut out, &mut self.devices);
        out
    }
}

/// Saving a device and then forgetting its id, where no saved device had
/// that id, leaves the saved devices as they were.
pub proof fn lemma_add_then_remove(s: Seq<DeviceView>, d: DeviceView)
    requires
        forall|i: int| 0 <= i < s.len() ==> (#[trigger] s[i]).id != d.id,
    ensures
        s.push(d).filter(not_device(d.id)) == s,
{
    lemma_filter_push_dropped(s, d, not_device(d.id));
    assert forall|i: int| 0 <= i < s.len() implies #[trigger] not_device(d.id)(s[i]) by {}
    lemma_filter_all(s, not_device(d.id));
}

} // verus!
