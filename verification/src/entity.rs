//! Entities that can be written to a switch besides table entries: meters,
//! counters, multicast groups and clone sessions.

use vstd::prelude::*;
use crate::runtime::{
    Entity, MeterEntry, MeterConfig, Index, CounterEntry, PacketReplicationEngineEntry, UpdateKind,
    CloneSessionEntry,
};
use crate::runtime;
use crate::pipeconf::{DefaultPipeconf, Pipeconf};
use crate::pure::{spec_meter, get_meter_id};
use crate::representation::DeviceID;

verus! {

/// The kind of a write.
#[derive(Debug, Clone, Copy, PartialEq, Eq, Structural)]
pub enum UpdateType {
    Insert,
    Modify,
    Delete,
    Unspecified,
}

/// The P4Runtime kind of write that an update type names.
pub open spec fn update_kind_of(u: UpdateType) -> UpdateKind {
    match u {
        UpdateType::Insert => UpdateKind::Insert,
        UpdateType::Modify => UpdateKind::Modify,
        UpdateType::Delete => UpdateKind::Delete,
        UpdateType::Unspecified => UpdateKind::Unspecified,
    }
}

impl From<UpdateType> for UpdateKind {
    fn from(u: UpdateType) -> (r: UpdateKind) {
        match u {
            UpdateType::Insert => UpdateKind::Insert,
            UpdateType::Modify => UpdateKind::Modify,
            UpdateType::Delete => UpdateKind::Delete,
            UpdateType::Unspecified => UpdateKind::Unspecified,
        }
    }
}

impl vstd::std_specs::convert::FromSpecImpl<UpdateType> for UpdateKind {
    open spec fn obeys_from_spec() -> bool {
        true
    }

    open spec fn from_spec(u: UpdateType) -> UpdateKind {
        update_kind_of(u)
    }
}

/// Things that a pipeconf can turn into a P4Runtime entity.
pub trait ToEntity {
    /// The pipeconf knows all that the conversion looks up.
    spec fn entity_ok(&self, pipeconf: &DefaultPipeconf) -> bool;

    /// `e` is what this value turns into under `pipeconf`: the entity it
    /// stands for, or `None` where it stands for none.
    spec fn gives_entity(&self, pipeconf: &DefaultPipeconf, e: Option<Entity>) -> bool;

    /// The entity, where there is one.
    fn to_proto_entity(&self, pipeconf: &DefaultPipeconf) -> (r: Option<Entity>)
        requires
            self.entity_ok(pipeconf),
        ensures
            self.gives_entity(pipeconf, r),
    ;
}

/// A counter of a device, or all counters of an array where no index is given.
#[derive(Clone, Copy, Debug, PartialEq, Eq, Structural, Hash)]
pub struct CounterIndex {
    pub device: DeviceID,
    pub id: u32,
    pub index: Option<i64>,
}

/// The counter entry that reads counter `c`.
pub open spec fn counter_entry_of(c: CounterIndex) -> CounterEntry {
    CounterEntry {
        counter_id: c.id,
        index: match c.index {
            Some(i) => Some(Index { index: i }),
            None => None,
        },
        data: None,
    }
}

/// The counter of `device` that entry `e` is about.
pub open spec fn counter_index_of(e: CounterEntry, device: DeviceID) -> CounterIndex {
    CounterIndex {
        device,
        id: e.counter_id,
        index: match e.index {
            Some(i) => Some(i.index),
            None => None,
        },
    }
}

impl CounterIndex {
    /// The counter entry that reads this counter.
    pub fn to_counter_entry(&self) -> (r: CounterEntry)
        ensures
            r == counter_entry_of(*self),
    {
        let index = match self.index {
            Some(i) => Some(Index { index: i }),
            None => None,
        };
        CounterEntry { counter_id: self.id, index, data: None }
    }

    /// The counter that an entry read from `device` is about.
    pub fn from_counter_entry(entry: &CounterEntry, device: DeviceID) -> (r: CounterIndex)
        ensures
            r == counter_index_of(*entry, device),
    {
        let index = match entry.index {
            Some(i) => Some(i.index),
            None => None,
        };
        CounterIndex { device, id: entry.counter_id, index }
    }
}

/// Reading back the counter that the entry for counter `c` is about gives `c`.
pub proof fn lemma_counter_entry_roundtrip(c: CounterIndex)
    ensures
        counter_index_of(counter_entry_of(c), c.device) == c,
{
}

/// A meter's configuration, by the meter's name.
#[derive(Clone, Debug)]
pub struct Meter {
    pub name: &'static str,
    pub index: i64,
    pub cburst: i64,
    pub cir: i64,
    pub pburst: i64,
    pub pir: i64,
}

impl ToEntity for Meter {
    open spec fn entity_ok(&self, pipeconf: &DefaultPipeconf) -> bool {
        spec_meter(pipeconf.spec_p4info(), self.name@) is Some
    }

    /// The meter entry: the meter's id, its index and its rates.
    open spec fn gives_entity(&self, pipeconf: &DefaultPipeconf, e: Option<Entity>) -> bool {
        e == Some(
            Entity::MeterEntry(
                MeterEntry {
                    meter_id: spec_meter(pipeconf.spec_p4info(), self.name@).unwrap().preamble.unwrap().id,
                    index: Some(Index { index: self.index }),
                    config: Some(
                        MeterConfig {
                            cir: self.cir,
                            cburst: self.cburst,
                            pir: self.pir,
                            pburst: self.pburst,
                        },
                    ),
                },
            ),
        )
    }

    fn to_proto_entity(&self, pipeconf: &DefaultPipeconf) -> (r: Option<Entity>) {
        let meter_id = get_meter_id(pipeconf.get_p4info(), self.name).unwrap();
        Some(
            Entity::MeterEntry(
                MeterEntry {
                    meter_id,
                    index: Some(Index { index: self.index }),
                    config: Some(
                        MeterConfig { cir: self.cir, cburst: self.cburst, pir: self.pir, pburst: self.pburst },
                    ),
                },
            ),
        )
    }
}

/// A copy of a packet sent out of a port.
#[derive(Clone, Copy, Debug, PartialEq, Eq, Structural)]
pub struct Replica {
    pub egress_port: u32,
    pub instance: u32,
}

impl Replica {
    /// The P4Runtime replica.
    pub fn into_proto(self) -> (r: runtime::Replica)
        ensures
            r.egress_port == self.egress_port,
            r.instance == self.instance,
    {
        runtime::Replica { egress_port: self.egress_port, instance: self.instance }
    }
}

/// A multicast group and the copies it makes.
#[derive(Clone, Debug)]
pub struct MulticastGroupEntry {
    pub multicast_group_id: u32,
    pub replicas: Vec<Replica>,
}

/// The P4Runtime replicas are the group's, in order.
pub open spec fn replicas_match(rs: Seq<Replica>, ps: Seq<runtime::Replica>) -> bool {
    &&& rs.len() == ps.len()
    &&& forall|i: int|
        0 <= i < rs.len() ==> (#[trigger] ps[i]).egress_port == rs[i].egress_port && ps[i].instance
            == rs[i].instance
}

impl MulticastGroupEntry {
    /// The P4Runtime multicast group entry.
    pub fn into_proto(&self) -> (r: runtime::MulticastGroupEntry)
        ensures
            r.multicast_group_id == self.multicast_group_id,
            replicas_match(self.replicas@, r.replicas@),
    {
        let mut replicas: Vec<runtime::Replica> = Vec::new();
        let mut i: usize = 0;
        while i < self.replicas.len()
            invariant
                i <= self.replicas@.len(),
                replicas_match(self.replicas@.take(i as int), replicas@),
            decreases self.replicas@.len() - i,
        {
            replicas.push(self.replicas[i].into_proto());
            i = i + 1;
        }
        proof {
            assert(self.replicas@.take(self.replicas@.len() as int) =~= self.replicas@);
        }
        runtime::MulticastGroupEntry { multicast_group_id: self.multicast_group_id, replicas }
    }
}

impl ToEntity for MulticastGroupEntry {
    open spec fn entity_ok(&self, pipeconf: &DefaultPipeconf) -> bool {
        true
    }

    /// The group as an entry of the packet replication engine.
    open spec fn gives_entity(&self, pipeconf: &DefaultPipeconf, e: Option<Entity>) -> bool {
        e matches Some(
            Entity::PacketReplicationEngineEntry(PacketReplicationEngineEntry::MulticastGroupEntry(m)),
        ) && m.multicast_group_id == self.multicast_group_id && replicas_match(self.replicas@, m.replicas@)
    }

    fn to_proto_entity(&self, pipeconf: &DefaultPipeconf) -> (r: Option<Entity>) {
        Some(
            Entity::PacketReplicationEngineEntry(
                PacketReplicationEngineEntry::MulticastGroupEntry(self.into_proto()),
            ),
        )
    }
}

/// A clone session, written as P4Runtime writes it.
pub type CloneSession = CloneSessionEntry;

/// A copy of a clone session.
fn clone_session_copy(c: &CloneSession) -> (r: CloneSession)
    ensures
        r.session_id == c.session_id,
        r.replicas@ == c.replicas@,
        r.class_of_service == c.class_of_service,
        r.packet_length_bytes == c.packet_length_bytes,
{
    let mut replicas: Vec<runtime::Replica> = Vec::new();
    let mut i: usize = 0;
    while i < c.replicas.len()
        invariant
            i <= c.replicas@.len(),
            replicas@ == c.replicas@.take(i as int),
        decreases c.replicas@.len() - i,
    {
        replicas.push(c.replicas[i]);
        i = i + 1;
        proof {
            assert(replicas@ =~= c.replicas@.take(i as int));
        }
    }
    proof {
        assert(c.replicas@.take(c.replicas@.len() as int) =~= c.replicas@);
    }
    CloneSessionEntry {
        session_id: c.session_id,
        replicas,
        class_of_service: c.class_of_service,
        packet_length_bytes: c.packet_length_bytes,
    }
}

impl ToEntity for CloneSessionEntry {
    open spec fn entity_ok(&self, pipeconf: &DefaultPipeconf) -> bool {
        true
    }

    /// The session as an entry of the packet replication engine.
    open spec fn gives_entity(&self, pipeconf: &DefaultPipeconf, e: Option<Entity>) -> bool {
        e matches Some(
            Entity::PacketReplicationEngineEntry(PacketReplicationEngineEntry::CloneSessionEntry(c)),
        ) && c.session_id == self.session_id && c.replicas@ == self.replicas@ && c.class_of_service
            == self.class_of_service && c.packet_length_bytes == self.packet_length_bytes
    }

    fn to_proto_entity(&self, pipeconf: &DefaultPipeconf) -> (r: Option<Entity>) {
        Some(
            Entity::PacketReplicationEngineEntry(
                PacketReplicationEngineEntry::CloneSessionEntry(clone_session_copy(self)),
            ),
        )
    }
}

} // verus!
