//! The options of a connection to a BMv2 switch, and the events its manager
//! publishes.

use vstd::prelude::*;

verus! {

/// An event of the BMv2 connection manager.
#[derive(Clone, Copy, Debug, PartialEq, Eq, Structural)]
pub enum Bmv2Event {
    /// A device became ready.
    DeviceAdded,
}

/// The election id the controller bids with to be master of a switch.
#[derive(Clone, Copy, Debug, PartialEq, Eq, Structural)]
pub struct Bmv2MasterUpdateOption {
    pub election_id_high: u64,
    pub election_id_low: u64,
}

impl Default for Bmv2MasterUpdateOption {
    /// Election id 1.
    fn default() -> (r: Self)
        ensures
            r.election_id_high == 0,
            r.election_id_low == 1,
    {
        Bmv2MasterUpdateOption { election_id_high: 0, election_id_low: 1 }
    }
}

/// How to connect to a BMv2 switch.
#[derive(Clone, Copy, Debug, PartialEq, Eq, Structural)]
pub struct Bmv2ConnectionOption {
    /// The switch's own device id.
    pub p4_device_id: u64,
    /// The id the controller knows the device by, where it is given.
    pub inner_device_id: Option<u64>,
    /// The master bid to make once connected, where one is made.
    pub master_update: Option<Bmv2MasterUpdateOption>,
}

impl Default for Bmv2ConnectionOption {
    /// Device 1, no inner id, and the default master bid.
    fn default() -> (r: Self)
        ensures
            r.p4_device_id == 1,
            r.inner_device_id is None,
            r.master_update == Some(Bmv2MasterUpdateOption { election_id_high: 0, election_id_low: 1 }),
    {
        Bmv2ConnectionOption {
            p4_device_id: 1,
            inner_device_id: None,
            master_update: Some(Bmv2MasterUpdateOption::default()),
        }
    }
}

} // verus!
