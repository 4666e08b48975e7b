//! The P4Runtime messages that the controller builds: table entries, writes
//! of entities, packets sent out through a switch, and arbitration updates.

use vstd::prelude::*;
use crate::buffer::buf_view;
use crate::p4info::P4Info;

verus! {

/// A 128-bit value as two halves.
#[derive(Clone, Copy, Debug, PartialEq, Eq, Structural)]
pub struct Uint128 {
    pub high: u64,
    pub low: u64,
}

/// How a field is matched in a table entry, with the bytes it is matched on.
#[derive(Debug)]
pub enum FieldMatchType {
    Exact(bytes::Bytes),
    /// The value and the prefix length.
    Lpm(bytes::Bytes, i32),
    /// The value and the mask.
    Ternary(bytes::Bytes, bytes::Bytes),
    /// The low and the high end.
    Range(bytes::Bytes, bytes::Bytes),
}

/// A match kind with the bytes it is matched on.
pub enum MatchSpec {
    Exact(Seq<u8>),
    Lpm(Seq<u8>, i32),
    Ternary(Seq<u8>, Seq<u8>),
    Range(Seq<u8>, Seq<u8>),
}

/// What a field match holds.
pub open spec fn field_match_type_spec(t: FieldMatchType) -> MatchSpec {
    match t {
        FieldMatchType::Exact(v) => MatchSpec::Exact(buf_view(v)),
        FieldMatchType::Lpm(v, l) => MatchSpec::Lpm(buf_view(v), l),
        FieldMatchType::Ternary(v, m) => MatchSpec::Ternary(buf_view(v), buf_view(m)),
        FieldMatchType::Range(lo, hi) => MatchSpec::Range(buf_view(lo), buf_view(hi)),
    }
}

/// What an optional field match holds.
pub open spec fn opt_field_match_type_spec(t: Option<FieldMatchType>) -> Option<MatchSpec> {
    match t {
        Some(t) => Some(field_match_type_spec(t)),
        None => None,
    }
}

/// The match on one field of a table's key.
#[derive(Debug)]
pub struct FieldMatch {
    pub field_id: u32,
    pub field_match_type: Option<FieldMatchType>,
}

/// A parameter of an action call.
#[derive(Debug)]
pub struct ActionParam {
    pub param_id: u32,
    pub value: bytes::Bytes,
}

/// A call of an action with its parameters.
#[derive(Debug)]
pub struct ActionCall {
    pub action_id: u32,
    pub params: Vec<ActionParam>,
}

/// The action part of a table entry.
#[derive(Debug)]
pub struct TableAction {
    pub action: Option<ActionCall>,
}

/// An entry of a match-action table.
#[derive(Debug)]
pub struct TableEntry {
    pub table_id: u32,
    /// The key; P4Runtime calls this field `match`.
    pub matches: Vec<FieldMatch>,
    pub action: Option<TableAction>,
    pub priority: i32,
    pub controller_metadata: u64,
    /// The direct meter's configuration, where the entry sets one.
    pub meter_config: Option<MeterConfig>,
    /// The direct counter's counts, where the entry carries them.
    pub counter_data: Option<CounterData>,
    pub is_default_action: bool,
    pub idle_timeout_ns: i64,
    /// How long since the entry was last hit, where a switch reports it.
    pub time_since_last_hit: Option<IdleTimeout>,
    /// Bytes that the controller keeps with the entry.
    pub metadata: bytes::Bytes,
}

/// The time since a table entry was last hit.
#[derive(Clone, Copy, Debug, PartialEq, Eq, Structural)]
pub struct IdleTimeout {
    pub elapsed_ns: i64,
}

/// An index into an array of meters or counters.
#[derive(Clone, Copy, Debug, PartialEq, Eq, Structural)]
pub struct Index {
    pub index: i64,
}

/// The rates and burst sizes of a meter.
#[derive(Clone, Copy, Debug, PartialEq, Eq, Structural)]
pub struct MeterConfig {
    pub cir: i64,
    pub cburst: i64,
    pub pir: i64,
    pub pburst: i64,
}

/// The configuration of one meter.
#[derive(Clone, Copy, Debug, PartialEq, Eq, Structural)]
pub struct MeterEntry {
    pub meter_id: u32,
    pub index: Option<Index>,
    pub config: Option<MeterConfig>,
}

/// What a counter has counted.
#[derive(Clone, Copy, Debug, PartialEq, Eq, Structural)]
pub struct CounterData {
    pub byte_count: i64,
    pub packet_count: i64,
}

/// One counter, or all counters of an array when no index is given.
#[derive(Clone, Copy, Debug, PartialEq, Eq, Structural)]
pub struct CounterEntry {
    pub counter_id: u32,
    pub index: Option<Index>,
    pub data: Option<CounterData>,
}

/// A copy of a packet sent out of a port.
#[derive(Clone, Copy, Debug, PartialEq, Eq, Structural)]
pub struct Replica {
    pub egress_port: u32,
    pub instance: u32,
}

/// A multicast group and the copies it makes.
#[derive(Debug)]
pub struct MulticastGroupEntry {
    pub multicast_group_id: u32,
    pub replicas: Vec<Replica>,
}

/// A clone session and the copies it makes.
#[derive(Debug)]
pub struct CloneSessionEntry {
    pub session_id: u32,
    pub replicas: Vec<Replica>,
    pub class_of_service: u32,
    pub packet_length_bytes: i32,
}

/// An entry of the packet replication engine.
#[derive(Debug)]
pub enum PacketReplicationEngineEntry {
    MulticastGroupEntry(MulticastGroupEntry),
    CloneSessionEntry(CloneSessionEntry),
}

/// Something that can be written to a switch.
#[derive(Debug)]
pub enum Entity {
    TableEntry(TableEntry),
    MeterEntry(MeterEntry),
    CounterEntry(CounterEntry),
    PacketReplicationEngineEntry(PacketReplicationEngineEntry),
}

/// The kind of a write.
#[derive(Clone, Copy, Debug, PartialEq, Eq, Structural)]
pub enum UpdateKind {
    Unspecified,
    Insert,
    Modify,
    Delete,
}

/// The number that P4Runtime gives a kind of write.
pub open spec fn update_kind_code(k: UpdateKind) -> i32 {
    match k {
        UpdateKind::Unspecified => 0,
        UpdateKind::Insert => 1,
        UpdateKind::Modify => 2,
        UpdateKind::Delete => 3,
    }
}

/// P4Runtime numbers the kinds of write in the order unspecified, insert,
/// modify, delete, from 0: an insert is written as 1.
pub proof fn lemma_update_kind_numbers()
    ensures
        update_kind_code(UpdateKind::Unspecified) == 0,
        update_kind_code(UpdateKind::Insert) == 1,
        update_kind_code(UpdateKind::Modify) == 2,
        update_kind_code(UpdateKind::Delete) == 3,
        forall|a: UpdateKind, b: UpdateKind| update_kind_code(a) == update_kind_code(b) ==> a == b,
{
}

impl UpdateKind {
    /// The number that P4Runtime gives this kind of write.
    pub fn code(self) -> (r: i32)
        ensures
            r == update_kind_code(self),
    {
        match self {
            UpdateKind::Unspecified => 0,
            UpdateKind::Insert => 1,
            UpdateKind::Modify => 2,
            UpdateKind::Delete => 3,
        }
    }
}

/// One write of an entity.
#[derive(Debug)]
pub struct Update {
    /// The kind of write, by its P4Runtime number; P4Runtime calls this field `type`.
    pub update_type: i32,
    pub entity: Option<Entity>,
}

/// A batch of writes to one device.
#[derive(Debug)]
pub struct WriteRequest {
    pub device_id: u64,
    pub role_id: u64,
    pub election_id: Option<Uint128>,
    pub updates: Vec<Update>,
    pub atomicity: i32,
}

/// P4Runtime's number for the pipeline action that checks a configuration
/// and makes it the one the switch runs.
pub const VERIFY_AND_COMMIT: i32 = 3;

/// What a switch is to run: the program's P4Info and the target's own
/// configuration, as bytes.
pub struct ForwardingPipelineConfig {
    pub p4info: Option<P4Info>,
    pub p4_device_config: Vec<u8>,
    pub cookie: Option<u64>,
}

/// A request that a switch run a pipeline.
pub struct SetForwardingPipelineConfigRequest {
    pub device_id: u64,
    pub role_id: u64,
    pub election_id: Option<Uint128>,
    /// The pipeline action, by its P4Runtime number.
    pub action: i32,
    pub config: Option<ForwardingPipelineConfig>,
}

/// One metadata field of a packet exchanged with the controller.
#[derive(Debug)]
pub struct PacketMetadata {
    pub metadata_id: u32,
    pub value: bytes::Bytes,
}

/// A packet for the switch to send out.
#[derive(Debug)]
pub struct PacketOut {
    pub payload: bytes::Bytes,
    pub metadata: Vec<PacketMetadata>,
}

/// A bid of the controller to be master of a device.
#[derive(Clone, Copy, Debug, PartialEq, Eq, Structural)]
pub struct MasterArbitrationUpdate {
    pub device_id: u64,
    pub election_id: Option<Uint128>,
}

/// A message on the stream from the controller to a switch.
#[derive(Debug)]
pub enum StreamMessageRequest {
    Arbitration(MasterArbitrationUpdate),
    Packet(PacketOut),
}

/// A packet the switch sends to the controller.
#[derive(Debug)]
pub struct PacketIn {
    pub payload: bytes::Bytes,
    pub metadata: Vec<PacketMetadata>,
}

/// A message on the stream from a switch to the controller.
#[derive(Debug)]
pub enum StreamMessageResponse {
    /// The outcome of a bid to be master.
    Arbitration(MasterArbitrationUpdate),
    /// A packet sent to the controller.
    Packet(PacketIn),
    /// A digest of packets.
    Digest,
    /// A table entry timed out.
    IdleTimeoutNotification,
    /// Anything else.
    Other,
}

} // verus!
