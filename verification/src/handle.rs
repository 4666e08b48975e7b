//! What an application asks of the core through its handle: flows and
//! entities written to the devices it is connected to.

use vstd::prelude::*;
use crate::entity::{UpdateType, ToEntity};
use crate::error::ContextErrorKind;
use crate::flow::Flow;
use crate::p4info::{first_where, lemma_first_where_step, lemma_first_where_none};
use crate::pipeconf::{DefaultPipeconf, Pipeconf};
use crate::pure::{table_entry_ok, entry_built, table_entry_to_entity};
use crate::representation::DeviceID;
use crate::runtime::Entity;
use crate::util::{hash_flow, flow_hash};

verus! {

/// A write of an entity to a device, for the core to send.
#[derive(Debug)]
pub struct SetEntity {
    pub device: DeviceID,
    pub entity: Entity,
    pub op: UpdateType,
}

/// Connections to `device`.
pub open spec fn conn_to(device: DeviceID) -> spec_fn((DeviceID, DefaultPipeconf)) -> bool {
    |c: (DeviceID, DefaultPipeconf)| c.0 == device
}

/// The pipeconf of the first connection to `device`.
pub open spec fn pipeconf_of(conns: Seq<(DeviceID, DefaultPipeconf)>, device: DeviceID) -> Option<DefaultPipeconf> {
    match first_where(conns, conn_to(device)) {
        Some(c) => Some(c.1),
        None => None,
    }
}

/// The pipeconf of the connection to `device`, where there is one.
fn find_pipeconf(conns: &[(DeviceID, DefaultPipeconf)], device: DeviceID) -> (r: Option<&DefaultPipeconf>)
    ensures
        r matches Some(p) ==> pipeconf_of(conns@, device) == Some(*p),
        r is None ==> pipeconf_of(conns@, device) is None,
{
    let ghost pd = conn_to(device);
    let mut i: usize = 0;
    while i < conns.len()
        invariant
            i <= conns@.len(),
            pd == conn_to(device),
            forall|k: int| 0 <= k < i ==> !pd(#[trigger] conns@[k]),
        decreases conns@.len() - i,
    {
        if conns[i].0 == device {
            proof {
                lemma_first_where_step(conns@, pd, i as int);
                assert(conns@.skip(i as int)[0] == conns@[i as int]);
            }
            return Some(&conns[i].1);
        }
        i = i + 1;
    }
    proof {
        lemma_first_where_none(conns@, pd);
    }
    None
}

/// The flow can be written where it goes: where the device is connected,
/// every name of the flow is found in the device's P4Info and every value
/// suits its field.
pub open spec fn flow_ok(conns: Seq<(DeviceID, DefaultPipeconf)>, flow: Flow, device: DeviceID) -> bool {
    pipeconf_of(conns, device) matches Some(pc) ==> table_entry_ok(
        pc.spec_p4info(),
        flow.table.name@,
        flow.table.matches@,
        flow.action.name@,
        flow.action.params@,
    )
}

/// Writes `flow` to `device` with `update`: the flow's metadata becomes its
/// hash, and the table entry built on the device's pipeconf with that
/// metadata is to be sent. A device that is not connected is an error.
pub fn set_flow(connections: &[(DeviceID, DefaultPipeconf)], flow: Flow, device: DeviceID, update: UpdateType) -> (r:
    Result<(Flow, SetEntity), ContextErrorKind>)
    requires
        flow_ok(connections@, flow, device),
    ensures
        match pipeconf_of(connections@, device) {
            None => r == Err::<(Flow, SetEntity), ContextErrorKind>(
                ContextErrorKind::DeviceNotConnected { device },
            ),
            Some(pc) => r matches Ok((f, req)) && {
                &&& f.table == flow.table
                &&& f.action == flow.action
                &&& f.priority == flow.priority
                &&& f.metadata == flow_hash(flow@)
                &&& req.device == device
                &&& req.op == update
                &&& req.entity matches Entity::TableEntry(t) && entry_built(
                    pc.spec_p4info(),
                    flow.table.name@,
                    flow.table.matches@,
                    false,
                    flow.action.name@,
                    flow.action.params@,
                    flow.priority,
                    flow_hash(flow@),
                    t,
                )
            },
        },
{
    let hash = hash_flow(&flow);
    match find_pipeconf(connections, device) {
        None => Err(ContextErrorKind::DeviceNotConnected { device }),
        Some(pipeconf) => {
            let table_entry = flow.to_table_entry(pipeconf, hash);
            let mut flow = flow;
            flow.metadata = hash;
            Ok((flow, SetEntity { device, entity: table_entry_to_entity(table_entry), op: update }))
        },
    }
}

/// Inserts `flow` on `device`, as `set_flow` does with an insert.
pub fn insert_flow(connections: &[(DeviceID, DefaultPipeconf)], flow: Flow, device: DeviceID) -> (r: Result<
    (Flow, SetEntity),
    ContextErrorKind,
>)
    requires
        flow_ok(connections@, flow, device),
    ensures
        match pipeconf_of(connections@, device) {
            None => r == Err::<(Flow, SetEntity), ContextErrorKind>(
                ContextErrorKind::DeviceNotConnected { device },
            ),
            Some(pc) => r matches Ok((f, req)) && {
                &&& f.table == flow.table
                &&& f.action == flow.action
                &&& f.priority == flow.priority
                &&& f.metadata == flow_hash(flow@)
                &&& req.device == device
                &&& req.op == UpdateType::Insert
                &&& req.entity matches Entity::TableEntry(t) && entry_built(
                    pc.spec_p4info(),
                    flow.table.name@,
                    flow.table.matches@,
                    false,
                    flow.action.name@,
                    flow.action.params@,
                    flow.priority,
                    flow_hash(flow@),
                    t,
                )
            },
        },
{
    set_flow(connections, flow, device, UpdateType::Insert)
}

/// The write that an entity, as the pipeconf turned it out, asks for: none
/// where there is no entity.
pub fn entity_request(device: DeviceID, update_type: UpdateType, entity: Option<Entity>) -> (r: Result<
    SetEntity,
    ContextErrorKind,
>)
    ensures
        match entity {
            None => r == Err::<SetEntity, ContextErrorKind>(ContextErrorKind::EntityIsNone),
            Some(e) => r == Ok::<SetEntity, ContextErrorKind>(SetEntity { device, entity: e, op: update_type }),
        },
{
    match entity {
        None => Err(ContextErrorKind::EntityIsNone),
        Some(e) => Ok(SetEntity { device, entity: e, op: update_type }),
    }
}

/// Writes `entity` to `device` with `update_type`, as the device's pipeconf
/// turns it out. A device that is not connected is an error; otherwise the
/// write carries the entity that the pipeconf turned out, and where it turned
/// out none the result is `EntityIsNone`.
pub fn set_entity<T: ToEntity>(
    connections: &[(DeviceID, DefaultPipeconf)],
    device: DeviceID,
    update_type: UpdateType,
    entity: &T,
) -> (r: Result<SetEntity, ContextErrorKind>)
    requires
        pipeconf_of(connections@, device) matches Some(pc) ==> entity.entity_ok(&pc),
    ensures
        pipeconf_of(connections@, device) is None ==> r == Err::<SetEntity, ContextErrorKind>(
            ContextErrorKind::DeviceNotConnected { device },
        ),
        pipeconf_of(connections@, device) matches Some(pc) ==> match r {
            Ok(req) => req.device == device && req.op == update_type && entity.gives_entity(
                &pc,
                Some(req.entity),
            ),
            Err(err) => err == ContextErrorKind::EntityIsNone && entity.gives_entity(&pc, None),
        },
{
    match find_pipeconf(connections, device) {
        None => Err(ContextErrorKind::DeviceNotConnected { device }),
        Some(pipeconf) => entity_request(device, update_type, entity.to_proto_entity(pipeconf)),
    }
}

} // verus!
